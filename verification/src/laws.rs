//! What holds of a run as a whole.
use std::time::Duration;

use tokio::task::Id;
use vstd::prelude::*;

use crate::drain::{Drain, DrainView};
use crate::error::Error;
use crate::lifecycle::{
    after_exit, all_seen_ready, exit_decision, state_modes, summarizes, with_outcome, Decision,
    Launch, Next, Origin, Registration, ServiceState, Supervision, SupervisionView,
};
use crate::policy::{ErrorAction, ExitAction, RestartPolicy, ServicePolicy};
use crate::readiness::{
    aggregate, initial_members, marked, member_ready, MemberReadiness, ReadinessMode,
    SupervisorReadiness,
};
use crate::runtime::{after_delay, begin_launch, fresh_states, resolves_policy, RunnerAction};
use crate::service::{race_outcome, ServiceError, ServiceOutcome};
use crate::summary::{first_named, ServiceSummary, ShutdownCause};
use crate::task::{Joined, TaskResult};
use crate::token::{cancelled, once_cancelled};

verus! {

/// A service that ends before its startup gate is crossed shuts the system down,
/// whatever it reported and whatever its policy is; it is never restarted.
pub proof fn law_readiness_failure_ignores_policy<R>(
    registration: Registration<R>,
    restarts: nat,
    outcome: ServiceOutcome,
)
    ensures
        exit_decision(registration, restarts, false, outcome) == Decision::Shutdown(
            ShutdownCause::ReadinessFailed { service: registration.name },
        ),
{
}

/// A cancellation of a service whose gate is crossed is always accepted: it neither
/// restarts the service nor shuts the system down.
pub proof fn law_cancellation_is_accepted<R>(registration: Registration<R>, restarts: nat)
    ensures
        exit_decision(registration, restarts, true, ServiceOutcome::Cancelled)
            == Decision::Continue,
{
}

/// A request for shutdown by a service whose gate is crossed is always granted.
pub proof fn law_requested_shutdown_is_granted<R>(registration: Registration<R>, restarts: nat)
    ensures
        exit_decision(registration, restarts, true, ServiceOutcome::RequestedShutdown)
            == Decision::Shutdown(
            match registration.origin {
                Origin::Service => ShutdownCause::ServiceRequested { service: registration.name },
                Origin::Signal => ShutdownCause::Signal,
            },
        ),
{
}

/// The two halves of a policy are independent: how completion is answered does not
/// depend on the restart policy nor on earlier restarts, and how an error is answered
/// does not depend on the reaction to completion.
pub proof fn law_policy_halves_are_independent<R>(
    one: Registration<R>,
    other: Registration<R>,
    restarts: nat,
    other_restarts: nat,
    error: ServiceError,
)
    requires
        one.name == other.name,
    ensures
        one.policy.completion() == other.policy.completion() ==> exit_decision(
            one,
            restarts,
            true,
            ServiceOutcome::Completed,
        ) == exit_decision(other, other_restarts, true, ServiceOutcome::Completed),
        one.policy.failure() == other.policy.failure() ==> exit_decision(
            one,
            restarts,
            true,
            ServiceOutcome::Error(error),
        ) == exit_decision(other, restarts, true, ServiceOutcome::Error(error)),
{
}

/// A service is restarted only when it completed under a policy that answers
/// completion with a restart, at once, or when it failed under a policy that has a
/// retry left, after exactly the backoff of that policy.
pub proof fn law_restarts_come_from_policy<R>(
    registration: Registration<R>,
    restarts: nat,
    ready: bool,
    outcome: ServiceOutcome,
)
    ensures
        exit_decision(registration, restarts, ready, outcome) matches Decision::Restart { delay }
            ==> {
            ||| outcome is Completed && registration.policy.completion() == ExitAction::Restart
                && delay is None
            ||| outcome is Error && registration.policy.failure().retries(restarts) && delay
                == registration.policy.failure().retry_backoff()
        },
{
}

/// One exit of a run: what the task contributed, and whether the startup gate of its
/// service was crossed by then.
pub struct Exit {
    pub result: TaskResult,
    pub ready: bool,
}

/// The states after a run in which the given exits were answered in turn, and why the
/// run was shut down, if it was. Exits after the shutdown are left to the drain, and
/// exits of unknown services are not answered.
pub open spec fn replay<R>(states: Seq<ServiceState<R>>, exits: Seq<Exit>) -> (
    Seq<ServiceState<R>>,
    Option<ShutdownCause>,
)
    decreases exits.len(),
{
    if exits.len() == 0 {
        (states, None)
    } else {
        let (reached, cause) = replay(states, exits.drop_last());
        let exit = exits.last();
        let index = exit.result.index as int;
        if cause is Some || index >= reached.len() {
            (reached, cause)
        } else {
            let decision = exit_decision(
                reached[index].registration,
                reached[index].restarts as nat,
                exit.ready,
                exit.result.outcome,
            );
            (
                after_exit(reached, index, exit.ready, exit.result.outcome, decision),
                match decision {
                    Decision::Shutdown(cause) => Some(cause),
                    _ => None,
                },
            )
        }
    }
}

/// The supervisor follows [`replay`]: answering one more exit of a known service
/// reaches the states that the replay reaches, and starts draining exactly when the
/// replay names a cause, with that cause and with the root token cancelled.
pub proof fn law_supervision_follows_replay<R>(
    started: Seq<ServiceState<R>>,
    exits: Seq<Exit>,
    view: SupervisionView<R>,
    exit: Exit,
    next: Result<Next<R>, Error>,
)
    requires
        replay(started, exits) == (view.states, None::<ShutdownCause>),
        exit.result.index < view.states.len(),
        view.follows(exit.result, exit.ready, next),
    ensures
        ({
            let (states, cause) = replay(started, exits.push(exit));
            match next {
                Ok(Next::Running(run)) => run@.states == states && cause is None,
                Ok(Next::Restarting(run, launch)) => {
                    &&& run@.states == states
                    &&& cause is None
                    &&& launch.index == exit.result.index
                },
                Ok(Next::Draining(drain)) => {
                    &&& drain@.states == states
                    &&& cause == Some(drain@.cause)
                    &&& drain@.root == once_cancelled(view.root)
                    &&& cancelled(drain@.root)
                },
                Err(_) => false,
            }
        }),
{
    assert(exits.push(exit).drop_last() =~= exits);
}

/// The first exit that shuts the system down decides: no later exit changes the
/// cause, restarts a service or is answered at all.
pub proof fn law_first_shutdown_wins<R>(
    states: Seq<ServiceState<R>>,
    exits: Seq<Exit>,
    later: Seq<Exit>,
)
    requires
        replay(states, exits).1 is Some,
    ensures
        replay(states, exits + later) == replay(states, exits),
    decreases later.len(),
{
    if later.len() == 0 {
        assert(exits + later =~= exits);
    } else {
        law_first_shutdown_wins(states, exits, later.drop_last());
        assert((exits + later).drop_last() =~= exits + later.drop_last());
    }
}

/// A run keeps its services: none is added or lost, and each keeps its name, policy,
/// readiness mode and runner.
pub proof fn law_registrations_are_kept<R>(states: Seq<ServiceState<R>>, exits: Seq<Exit>)
    ensures
        replay(states, exits).0.len() == states.len(),
        forall|i: int|
            0 <= i < states.len() ==> (#[trigger] replay(states, exits).0[i]).registration
                == states[i].registration,
    decreases exits.len(),
{
    if exits.len() > 0 {
        law_registrations_are_kept(states, exits.drop_last());
    }
}

/// An exit only concerns its own service: every other service keeps its last outcome
/// and its restart count.
pub proof fn law_exits_are_local<R>(states: Seq<ServiceState<R>>, exits: Seq<Exit>, index: int)
    requires
        0 <= index < states.len(),
        forall|k: int| 0 <= k < exits.len() ==> (#[trigger] exits[k]).result.index != index,
    ensures
        replay(states, exits).0[index] == states[index],
    decreases exits.len(),
{
    if exits.len() > 0 {
        let earlier = exits.drop_last();
        assert forall|k: int| 0 <= k < earlier.len() implies (#[trigger] earlier[k]).result.index
            != index by {
            assert(exits[k].result.index != index);
        }
        law_exits_are_local(states, earlier, index);
        law_registrations_are_kept(states, earlier);
        assert(exits[exits.len() - 1].result.index != index);
    }
}

/// A bounded policy bounds the restarts: unless completion restarts the service too, a
/// service that starts fresh is never restarted more than `max_restarts` times, and a
/// service that never restarts is not restarted at all.
pub proof fn law_restarts_are_bounded<R>(
    states: Seq<ServiceState<R>>,
    exits: Seq<Exit>,
    index: int,
)
    requires
        0 <= index < states.len(),
        states[index].restarts == 0,
        states[index].registration.policy.completion() != ExitAction::Restart,
    ensures
        match states[index].registration.policy.failure() {
            RestartPolicy::Never { .. } => replay(states, exits).0[index].restarts == 0,
            RestartPolicy::Attempts { max_restarts, .. } => replay(
                states,
                exits,
            ).0[index].restarts <= max_restarts,
            RestartPolicy::Always { .. } => true,
        },
    decreases exits.len(),
{
    if exits.len() > 0 {
        law_restarts_are_bounded(states, exits.drop_last(), index);
        law_registrations_are_kept(states, exits.drop_last());
    }
}

/// How often the service at `index` was restarted while the given exits were answered
/// in turn.
pub open spec fn restarts_granted<R>(
    states: Seq<ServiceState<R>>,
    exits: Seq<Exit>,
    index: int,
) -> nat
    decreases exits.len(),
{
    if exits.len() == 0 {
        0
    } else {
        let (reached, cause) = replay(states, exits.drop_last());
        let exit = exits.last();
        let restarted = cause is None && exit.result.index == index && index < reached.len()
            && exit_decision(
            reached[index].registration,
            reached[index].restarts as nat,
            exit.ready,
            exit.result.outcome,
        ) is Restart;
        restarts_granted(states, exits.drop_last(), index) + if restarted {
            1nat
        } else {
            0nat
        }
    }
}

/// Restarts are counted exactly: a service's count grows by one for each exit that is
/// answered with a restart and by nothing else.
pub proof fn law_restarts_are_counted<R>(
    states: Seq<ServiceState<R>>,
    exits: Seq<Exit>,
    index: int,
)
    requires
        0 <= index < states.len(),
        states[index].restarts + exits.len() <= usize::MAX,
    ensures
        replay(states, exits).0[index].restarts == states[index].restarts + restarts_granted(
            states,
            exits,
            index,
        ),
        restarts_granted(states, exits, index) <= exits.len(),
    decreases exits.len(),
{
    if exits.len() > 0 {
        law_restarts_are_counted(states, exits.drop_last(), index);
        law_registrations_are_kept(states, exits.drop_last());
    }
}

/// The exits of a service that fails `count` times in a row, after its startup gate
/// is crossed.
pub open spec fn failures(index: usize, error: ServiceError, count: nat) -> Seq<Exit> {
    Seq::new(
        count,
        |k: int|
            Exit {
                result: TaskResult { index, outcome: ServiceOutcome::Error(error) },
                ready: true,
            },
    )
}

/// A bounded policy grants its retries: a service that starts fresh and keeps failing
/// is restarted after each of its first `max_restarts` failures, and the failure after
/// that is answered with the fallback.
pub proof fn law_attempts_are_granted<R>(
    states: Seq<ServiceState<R>>,
    index: usize,
    error: ServiceError,
    max_restarts: usize,
    backoff: Duration,
    when_exhausted: ErrorAction,
    count: nat,
)
    requires
        index < states.len(),
        states[index as int].restarts == 0,
        states[index as int].registration.policy.failure() == (RestartPolicy::Attempts {
            max_restarts,
            backoff,
            when_exhausted,
        }),
        count <= max_restarts + 1,
    ensures
        ({
            let (reached, cause) = replay(states, failures(index, error, count));
            if count <= max_restarts {
                reached[index as int].restarts == count && cause is None
            } else {
                &&& reached[index as int].restarts == max_restarts
                &&& cause == match when_exhausted {
                    ErrorAction::Ignore => None,
                    ErrorAction::Shutdown => Some(
                        ShutdownCause::FatalService {
                            service: states[index as int].registration.name,
                        },
                    ),
                }
            }
        }),
    decreases count,
{
    let exits = failures(index, error, count);
    if count > 0 {
        let earlier = failures(index, error, (count - 1) as nat);
        assert(exits.drop_last() =~= earlier);
        law_attempts_are_granted(
            states,
            index,
            error,
            max_restarts,
            backoff,
            when_exhausted,
            (count - 1) as nat,
        );
        law_registrations_are_kept(states, earlier);
    }
}

/// `exit`, of a service with the given registration, is a reason to shut down with
/// `cause`.
pub open spec fn explains<R>(
    exit: Exit,
    registration: Registration<R>,
    cause: ShutdownCause,
) -> bool {
    let outcome = exit.result.outcome;
    match cause {
        ShutdownCause::Completed => false,
        ShutdownCause::Requested => exit.ready && outcome is Completed
            && registration.policy.completion() == ExitAction::Shutdown,
        ShutdownCause::Signal => exit.ready && outcome is RequestedShutdown && registration.origin
            == Origin::Signal,
        ShutdownCause::ServiceRequested { service } => exit.ready && outcome is RequestedShutdown
            && registration.origin == Origin::Service && service == registration.name,
        ShutdownCause::FatalService { service } => exit.ready && outcome is Error
            && registration.policy.failure().fallback() == Some(ErrorAction::Shutdown) && service
            == registration.name,
        ShutdownCause::ReadinessFailed { service } => !exit.ready && service == registration.name,
    }
}

/// A run shuts down only for a reason: the cause is explained by one of the exits, and
/// names the service of that exit where it names one.
pub proof fn law_shutdown_cause_is_explained<R>(states: Seq<ServiceState<R>>, exits: Seq<Exit>)
    ensures
        replay(states, exits).1 matches Some(cause) ==> exists|k: int|
            {
                &&& 0 <= k < exits.len()
                &&& exits[k].result.index < states.len()
                &&& explains(
                    #[trigger] exits[k],
                    states[exits[k].result.index as int].registration,
                    cause,
                )
            },
    decreases exits.len(),
{
    if exits.len() > 0 {
        let earlier = exits.drop_last();
        law_shutdown_cause_is_explained(states, earlier);
        law_registrations_are_kept(states, earlier);
        if let Some(cause) = replay(states, exits).1 {
            let last = exits.len() - 1;
            if replay(states, earlier).1 is Some {
                let k = choose|k: int|
                    {
                        &&& 0 <= k < earlier.len()
                        &&& earlier[k].result.index < states.len()
                        &&& explains(
                            #[trigger] earlier[k],
                            states[earlier[k].result.index as int].registration,
                            cause,
                        )
                    };
                assert(exits[k] == earlier[k]);
            } else {
                let index = exits[last].result.index as int;
                assert(replay(states, earlier).0[index].registration == states[index].registration);
                assert(explains(exits[last], states[index].registration, cause));
            }
        }
    }
}

/// The exit at `k` is answered with a shutdown for `cause`, given the restarts granted
/// by then.
pub open spec fn shuts_down<R>(
    states: Seq<ServiceState<R>>,
    exits: Seq<Exit>,
    k: int,
    cause: ShutdownCause,
) -> bool {
    let index = exits[k].result.index as int;
    &&& index < states.len()
    &&& exit_decision(
        states[index].registration,
        replay(states, exits.take(k)).0[index].restarts as nat,
        exits[k].ready,
        exits[k].result.outcome,
    ) == Decision::Shutdown(cause)
}

/// The shutdown cause comes from the first exit that decides for shutdown; if none does,
/// there is no shutdown.
pub proof fn law_first_deciding_exit_names_the_cause<R>(
    states: Seq<ServiceState<R>>,
    exits: Seq<Exit>,
)
    ensures
        match replay(states, exits).1 {
            Some(cause) => exists|k: int|
                {
                    &&& 0 <= k < exits.len()
                    &&& #[trigger] shuts_down(states, exits, k, cause)
                    &&& forall|j: int, other: ShutdownCause|
                        0 <= j < k ==> !(#[trigger] shuts_down(states, exits, j, other))
                },
            None => forall|k: int, cause: ShutdownCause|
                0 <= k < exits.len() ==> !(#[trigger] shuts_down(states, exits, k, cause)),
        },
    decreases exits.len(),
{
    if exits.len() > 0 {
        let earlier = exits.drop_last();
        let last = exits.len() - 1;
        law_first_deciding_exit_names_the_cause(states, earlier);
        law_registrations_are_kept(states, earlier);
        assert(exits.take(last) =~= earlier);
        assert forall|k: int, cause: ShutdownCause| 0 <= k < last implies #[trigger] shuts_down(
            states,
            exits,
            k,
            cause,
        ) == shuts_down(states, earlier, k, cause) by {
            assert(exits.take(k) =~= earlier.take(k));
        }
        match replay(states, earlier).1 {
            Some(cause) => {
                let k = choose|k: int|
                    {
                        &&& 0 <= k < earlier.len()
                        &&& #[trigger] shuts_down(states, earlier, k, cause)
                        &&& forall|j: int, other: ShutdownCause|
                            0 <= j < k ==> !(#[trigger] shuts_down(states, earlier, j, other))
                    };
                assert(shuts_down(states, exits, k, cause));
            },
            None => {
                if let Some(cause) = replay(states, exits).1 {
                    assert(shuts_down(states, exits, last, cause));
                }
            },
        }
    }
}

/// What happens in a run: a service declares itself ready, or one of its tasks ends.
pub enum Event {
    Signal { index: usize },
    Exit { result: TaskResult },
}

/// The event crosses the startup gate of the service at `index`.
pub open spec fn crosses(event: Event, index: int) -> bool {
    match event {
        Event::Signal { index: signalled } => signalled == index,
        Event::Exit { result } => result.index == index && result.outcome is Completed,
    }
}

/// The service at `index` has no startup gate, declared itself ready, or completed.
pub open spec fn crossed_by(modes: Seq<ReadinessMode>, events: Seq<Event>, index: int) -> bool {
    ||| modes[index] == ReadinessMode::Immediate
    ||| exists|k: int| 0 <= k < events.len() && crosses(#[trigger] events[k], index)
}

/// The shared readiness after the given events, if nothing else happened to it.
pub open spec fn members_after(modes: Seq<ReadinessMode>, events: Seq<Event>) -> Seq<
    MemberReadiness,
>
    decreases events.len(),
{
    if events.len() == 0 {
        initial_members(modes)
    } else {
        let members = members_after(modes, events.drop_last());
        match events.last() {
            Event::Signal { index } => marked(members, index as int),
            Event::Exit { result } => if result.outcome is Completed {
                marked(members, result.index as int)
            } else {
                members
            },
        }
    }
}

/// The exits among the events, each with whether the startup gate of its service was
/// crossed by then.
pub open spec fn exits_of(modes: Seq<ReadinessMode>, events: Seq<Event>) -> Seq<Exit>
    decreases events.len(),
{
    if events.len() == 0 {
        Seq::empty()
    } else {
        let exits = exits_of(modes, events.drop_last());
        match events.last() {
            Event::Signal { .. } => exits,
            Event::Exit { result } => exits.push(
                Exit { result, ready: crossed_by(modes, events, result.index as int) },
            ),
        }
    }
}

proof fn lemma_crossed_by_step(modes: Seq<ReadinessMode>, events: Seq<Event>, index: int)
    requires
        events.len() > 0,
    ensures
        crossed_by(modes, events, index) == (crossed_by(modes, events.drop_last(), index)
            || crosses(events.last(), index)),
{
    let earlier = events.drop_last();
    if crosses(events.last(), index) {
        assert(crosses(events[events.len() - 1], index));
    }
    if exists|k: int| 0 <= k < earlier.len() && crosses(#[trigger] earlier[k], index) {
        let k = choose|k: int| 0 <= k < earlier.len() && crosses(#[trigger] earlier[k], index);
        assert(crosses(events[k], index));
    }
    if exists|k: int| 0 <= k < events.len() && crosses(#[trigger] events[k], index) {
        let k = choose|k: int| 0 <= k < events.len() && crosses(#[trigger] events[k], index);
        if k < earlier.len() {
            assert(crosses(earlier[k], index));
        }
    }
}

/// A startup gate is crossed exactly when its service declared itself ready or
/// completed, and the supervisor is ready exactly when every gate is.
pub proof fn law_gates_are_crossed_by_signals_and_completions(
    modes: Seq<ReadinessMode>,
    events: Seq<Event>,
)
    ensures
        members_after(modes, events).len() == modes.len(),
        forall|i: int|
            0 <= i < modes.len() ==> (#[trigger] members_after(modes, events)[i]).ready()
                == crossed_by(modes, events, i),
        aggregate(members_after(modes, events)) == SupervisorReadiness::Ready <==> (forall|i: int|
            0 <= i < modes.len() ==> #[trigger] crossed_by(modes, events, i)),
    decreases events.len(),
{
    let after = members_after(modes, events);
    if events.len() > 0 {
        let earlier = events.drop_last();
        law_gates_are_crossed_by_signals_and_completions(modes, earlier);
        let before = members_after(modes, earlier);
        assert forall|i: int| 0 <= i < modes.len() implies (#[trigger] after[i]).ready()
            == crossed_by(modes, events, i) by {
            lemma_crossed_by_step(modes, events, i);
            assert(before[i].ready() == crossed_by(modes, earlier, i));
        }
    }
    if aggregate(after) == SupervisorReadiness::Ready {
        assert forall|i: int| 0 <= i < modes.len() implies #[trigger] crossed_by(
            modes,
            events,
            i,
        ) by {
            assert(after[i].ready());
        }
    } else {
        let i = choose|i: int| 0 <= i < after.len() && !(#[trigger] after[i]).ready();
        assert(!crossed_by(modes, events, i));
    }
}

proof fn lemma_seen_ready_is_crossed<R>(started: Seq<ServiceState<R>>, events: Seq<Event>)
    requires
        forall|i: int|
            0 <= i < started.len() ==> (#[trigger] started[i]).ready ==> started[
                i
            ].registration.readiness == ReadinessMode::Immediate,
    ensures
        replay(started, exits_of(state_modes(started), events)).0.len() == started.len(),
        forall|i: int|
            0 <= i < started.len() && (#[trigger] replay(
                started,
                exits_of(state_modes(started), events),
            ).0[i]).ready ==> crossed_by(state_modes(started), events, i),
    decreases events.len(),
{
    let modes = state_modes(started);
    let exits = exits_of(modes, events);
    law_registrations_are_kept(started, exits);
    if events.len() > 0 {
        let earlier = events.drop_last();
        let before = exits_of(modes, earlier);
        lemma_seen_ready_is_crossed(started, earlier);
        if let Event::Exit { .. } = events.last() {
            assert(exits.drop_last() =~= before);
        }
        assert forall|i: int|
            0 <= i < started.len() && (#[trigger] replay(
                started,
                exits,
            ).0[i]).ready implies crossed_by(modes, events, i) by {
            lemma_crossed_by_step(modes, events, i);
            if replay(started, before).0[i].ready {
                assert(crossed_by(modes, earlier, i));
            }
        }
    } else {
        assert forall|i: int|
            0 <= i < started.len() && (#[trigger] replay(
                started,
                exits,
            ).0[i]).ready implies crossed_by(modes, events, i) by {
            assert(started[i].ready);
            assert(modes[i] == started[i].registration.readiness);
        }
    }
}

/// Exits are answered by what the services did: an exit that is settled with the shared
/// readiness, as the events so far have left it, is answered as ready exactly when the
/// service has no startup gate, declared itself ready, or completed, now or before. The
/// states and the cause are those that [`replay`] reaches with the exits so flagged.
pub proof fn law_exits_are_answered_by_signals_and_completions<R>(
    started: Seq<ServiceState<R>>,
    events: Seq<Event>,
    view: SupervisionView<R>,
    found: Seq<MemberReadiness>,
    result: TaskResult,
    ready: bool,
    next: Result<Next<R>, Error>,
)
    requires
        forall|i: int|
            0 <= i < started.len() ==> (#[trigger] started[i]).ready ==> started[
                i
            ].registration.readiness == ReadinessMode::Immediate,
        replay(started, exits_of(state_modes(started), events)) == (
            view.states,
            None::<ShutdownCause>,
        ),
        found == members_after(state_modes(started), events),
        result.index < view.states.len(),
        ready == (view.states[result.index as int].ready || member_ready(
            if result.outcome is Completed {
                marked(found, result.index as int)
            } else {
                found
            },
            result.index as int,
        )),
        view.follows(result, ready, next),
    ensures
        ready == crossed_by(
            state_modes(started),
            events.push(Event::Exit { result }),
            result.index as int,
        ),
        ({
            let (states, cause) = replay(
                started,
                exits_of(state_modes(started), events.push(Event::Exit { result })),
            );
            match next {
                Ok(Next::Running(run)) => run@.states == states && cause is None,
                Ok(Next::Restarting(run, _)) => run@.states == states && cause is None,
                Ok(Next::Draining(drain)) => drain@.states == states && cause == Some(drain@.cause),
                Err(_) => false,
            }
        }),
{
    let modes = state_modes(started);
    let index = result.index as int;
    let longer = events.push(Event::Exit { result });
    assert(longer.drop_last() =~= events);
    lemma_seen_ready_is_crossed(started, events);
    law_gates_are_crossed_by_signals_and_completions(modes, events);
    lemma_crossed_by_step(modes, longer, index);
    assert(found[index].ready() == crossed_by(modes, events, index));
    let exit = Exit { result, ready };
    assert(exits_of(modes, longer) == exits_of(modes, events).push(exit));
    law_supervision_follows_replay(started, exits_of(modes, events), view, exit, next);
}

/// Crossing the startup gate once is enough: a service that was found ready at one
/// exit stays ready, whatever happens to it later, so that none of its exits is
/// answered with a readiness failure.
pub proof fn law_ready_once_is_ready_for_good<R>(
    view: SupervisionView<R>,
    joined: Joined,
    next: Result<Next<R>, Error>,
    index: int,
)
    requires
        view.exits(joined, next),
        0 <= index < view.states.len(),
        view.states[index].ready,
    ensures
        match next {
            Ok(Next::Running(run)) => run@.states[index].ready,
            Ok(Next::Restarting(run, _)) => run@.states[index].ready,
            Ok(Next::Draining(drain)) => drain@.states[index].ready,
            Err(_) => true,
        },
{
}

/// One of the exits is an exit of the service at `index`.
pub open spec fn has_ended(exits: Seq<Exit>, index: int) -> bool {
    exists|k: int| 0 <= k < exits.len() && (#[trigger] exits[k]).result.index == index
}

/// A run that ends without shutdown, after every service has ended, ends ready: each
/// gate was crossed, since a service that ends with its gate closed shuts the system
/// down.
pub proof fn law_completed_runs_are_ready<R>(states: Seq<ServiceState<R>>, exits: Seq<Exit>)
    requires
        replay(states, exits).1 is None,
        forall|i: int| 0 <= i < states.len() ==> #[trigger] has_ended(exits, i),
    ensures
        all_seen_ready(replay(states, exits).0),
{
    lemma_ended_services_are_ready(states, exits);
    assert forall|i: int| 0 <= i < states.len() implies (
    #[trigger] replay(states, exits).0[i]).ready by {
        assert(has_ended(exits, i));
    }
}

proof fn lemma_ended_services_are_ready<R>(states: Seq<ServiceState<R>>, exits: Seq<Exit>)
    requires
        replay(states, exits).1 is None,
    ensures
        replay(states, exits).0.len() == states.len(),
        forall|k: int|
            0 <= k < exits.len() && (#[trigger] exits[k]).result.index < states.len() ==> replay(
                states,
                exits,
            ).0[exits[k].result.index as int].ready,
    decreases exits.len(),
{
    if exits.len() > 0 {
        let earlier = exits.drop_last();
        lemma_ended_services_are_ready(states, earlier);
        assert forall|k: int|
            0 <= k < exits.len() && (#[trigger] exits[k]).result.index
                < states.len() implies replay(
            states,
            exits,
        ).0[exits[k].result.index as int].ready by {
            if k < exits.len() - 1 {
                assert(earlier[k] == exits[k]);
            }
        }
    }
}

/// While the supervisor runs, its token, its grace period and the shared readiness stay
/// the same, so that a service started later is cancelled with the others.
pub proof fn law_running_keeps_token_and_grace<R>(
    view: SupervisionView<R>,
    joined: Joined,
    next: Result<Next<R>, Error>,
)
    requires
        view.exits(joined, next),
    ensures
        match next {
            Ok(Next::Running(run)) => run@.root == view.root && run@.grace == view.grace
                && run@.tracker == view.tracker,
            Ok(Next::Restarting(run, launch)) => run@.root == view.root && launch.token
                == view.root && run@.grace == view.grace && run@.tracker == view.tracker,
            Ok(Next::Draining(drain)) => drain@.root == once_cancelled(view.root) && drain@.grace
                == view.grace && drain@.tracker == view.tracker,
            Err(_) => true,
        },
{
}

/// Shutdown reaches every service: the token that it cancels is the one that every
/// launch handed out.
pub proof fn law_shutdown_reaches_every_launch<R>(
    view: SupervisionView<R>,
    launch: Launch,
    index: usize,
    mode: ReadinessMode,
    restart_delay: Option<Duration>,
    result: TaskResult,
    ready: bool,
    drain: Drain<R>,
)
    requires
        launch.starts(index, mode, view.tracker, view.root, restart_delay),
        view.follows(result, ready, Ok(Next::Draining(drain))),
    ensures
        drain@.root == once_cancelled(launch.token),
        cancelled(drain@.root),
{
}

/// Completing successfully counts as crossing the startup gate: a known service that
/// completes while the supervisor runs is ready, and never fails readiness.
pub proof fn law_completion_counts_as_ready<R>(
    view: SupervisionView<R>,
    task_id: Id,
    index: usize,
    next: Result<Next<R>, Error>,
)
    requires
        view.running.contains_key(task_id),
        index < view.states.len(),
        view.exits(
            Joined::Finished {
                task_id,
                result: TaskResult { index, outcome: ServiceOutcome::Completed },
            },
            next,
        ),
    ensures
        match next {
            Ok(Next::Running(run)) => run@.states[index as int].ready,
            Ok(Next::Restarting(run, _)) => run@.states[index as int].ready,
            Ok(Next::Draining(drain)) => drain@.states[index as int].ready && drain@.cause
                == ShutdownCause::Requested,
            Err(_) => false,
        },
{
}

/// Completing successfully counts as crossing the startup gate during shutdown too: a
/// known service that completes is ready, and every service that was ready stays ready.
/// If its gate was the only one left, the run ends ready.
pub proof fn law_completion_counts_as_ready_during_shutdown<R>(
    before: DrainView<R>,
    task_id: Id,
    index: usize,
    after: DrainView<R>,
    noted: Result<(), Error>,
)
    requires
        before.running.contains_key(task_id),
        index < before.states.len(),
        before.notes(
            Joined::Finished {
                task_id,
                result: TaskResult { index, outcome: ServiceOutcome::Completed },
            },
            after,
            noted,
        ),
    ensures
        noted is Ok,
        after.states[index as int].ready,
        forall|j: int|
            0 <= j < before.states.len() && before.states[j].ready ==> (
            #[trigger] after.states[j]).ready,
        (forall|j: int|
            0 <= j < before.states.len() && j != index ==> (#[trigger] before.states[j]).ready)
            ==> all_seen_ready(after.states),
{
}

/// A task that the supervisor spawned never confuses the bookkeeping: whether it ran
/// to completion for its own service, was aborted or panicked, its end is answered.
pub proof fn law_known_tasks_are_answered<R>(
    view: SupervisionView<R>,
    joined: Joined,
    next: Result<Next<R>, Error>,
)
    requires
        view.consistent(),
        view.running.contains_key(joined.task()),
        joined matches Joined::Finished { result, .. } ==> result.index
            == view.running[joined.task()],
        view.exits(joined, next),
    ensures
        next is Ok,
{
}

/// A task that the supervisor never spawned is always an error.
pub proof fn law_unknown_tasks_are_errors<R>(
    view: SupervisionView<R>,
    joined: Joined,
    next: Result<Next<R>, Error>,
)
    requires
        !view.running.contains_key(joined.task()),
        view.exits(joined, next),
    ensures
        next matches Err(Error::UnknownTask { .. }),
{
}

/// A panic is handled like an error that the service reported.
pub proof fn law_panic_counts_as_error<R>(
    view: SupervisionView<R>,
    task_id: Id,
    message: String,
    next: Result<Next<R>, Error>,
)
    requires
        view.consistent(),
        view.running.contains_key(task_id),
        view.exits(Joined::Failed { task_id, message }, next),
    ensures
        exists|error: ServiceError, ready: bool|
            error@ == message@ && #[trigger] (SupervisionView {
                running: view.running.remove(task_id),
                ..view
            }).follows(
                TaskResult {
                    index: view.running[task_id],
                    outcome: ServiceOutcome::Error(error),
                },
                ready,
                next,
            ),
{
    let joined = Joined::Failed { task_id, message };
    let removed = SupervisionView { running: view.running.remove(task_id), ..view };
    let (result, ready) = choose|result: TaskResult, ready: bool|
        joined.contributes(view.running[task_id], result) && #[trigger] removed.follows(
            result,
            ready,
            next,
        );
    assert(result == (TaskResult {
        index: view.running[task_id],
        outcome: ServiceOutcome::Error(result.outcome->Error_0),
    }));
}

/// Draining keeps the cause, the services and their restart counts: nothing that
/// happens during shutdown restarts a service or changes why the run ended.
pub proof fn law_drain_keeps_cause_and_restarts<R>(
    before: DrainView<R>,
    joined: Joined,
    after: DrainView<R>,
    noted: Result<(), Error>,
    index: int,
)
    requires
        before.notes(joined, after, noted),
        0 <= index < before.states.len(),
    ensures
        after.cause == before.cause,
        after.states.len() == before.states.len(),
        after.states[index].registration == before.states[index].registration,
        after.states[index].restarts == before.states[index].restarts,
        before.states[index].ready ==> after.states[index].ready,
{
    if before.running.contains_key(joined.task()) {
        let recorded = before.running[joined.task()];
        let result = choose|result: TaskResult| #[trigger]
            joined.contributes(recorded, result) && if result.index < before.states.len() {
                after.states == with_outcome(
                    before.states,
                    result.index as int,
                    result.outcome,
                )
            } else {
                after.states == before.states
            };
        let at = result.index as int;
        if at < before.states.len() {
            assert(after.states[at].registration == before.states[at].registration);
            assert(after.states[at].restarts == before.states[at].restarts);
            if index != at {
                assert(after.states[index] == before.states[index]);
            }
        }
    }
}

/// The end of the grace period writes off exactly the services that still have a
/// running task.
pub proof fn law_timeout_cancels_what_lingers<R>(view: DrainView<R>, index: usize)
    requires
        index < view.states.len(),
    ensures
        view.timed_out().cause == view.cause,
        view.timed_out().states.len() == view.states.len(),
        view.timed_out().states[index as int].restarts == view.states[index as int].restarts,
        view.timed_out().states[index as int].last_outcome == if view.running.contains_value(
            index,
        ) {
            ServiceOutcome::Cancelled
        } else {
            view.states[index as int].last_outcome
        },
{
}

/// Collecting an aborted task after the grace period changes no outcome: the service
/// was already written off.
pub proof fn law_aborted_tasks_stay_cancelled<R>(
    view: DrainView<R>,
    task_id: Id,
    after: DrainView<R>,
    noted: Result<(), Error>,
)
    requires
        view.running.contains_key(task_id),
        view.running[task_id] < view.states.len(),
        view.timed_out().notes(Joined::Aborted { task_id }, after, noted),
    ensures
        noted is Ok,
        after.states == view.timed_out().states,
        after.running == view.running.remove(task_id),
{
    let index = view.running[task_id];
    assert(view.running.contains_value(index));
    assert(after.states =~= view.timed_out().states);
}

/// The summary reports every service once, under its registered name and in
/// registration order, and looking a name up finds the service that was registered
/// first under it.
pub proof fn law_summary_finds_first_registered<R>(
    summaries: Seq<ServiceSummary>,
    states: Seq<ServiceState<R>>,
    name: Seq<char>,
    found: Option<ServiceSummary>,
)
    requires
        summarizes(summaries, states),
        first_named(summaries, name, found),
    ensures
        match found {
            Some(summary) => exists|i: int|
                {
                    &&& 0 <= i < states.len()
                    &&& (#[trigger] states[i]).registration.name@ == name
                    &&& summary.last_outcome() == states[i].last_outcome
                    &&& summary.restart_count() == states[i].restarts
                    &&& forall|j: int|
                        0 <= j < i ==> (#[trigger] states[j]).registration.name@ != name
                },
            None => forall|i: int|
                0 <= i < states.len() ==> (#[trigger] states[i]).registration.name@ != name,
        },
{
    match found {
        Some(summary) => {
            let i = choose|i: int|
                {
                    &&& 0 <= i < summaries.len()
                    &&& summary == #[trigger] summaries[i]
                    &&& summary.label()@ == name
                    &&& forall|j: int| 0 <= j < i ==> (#[trigger] summaries[j]).label()@ != name
                };
            assert(states[i].registration.name@ == name);
            assert forall|j: int| 0 <= j < i implies (#[trigger] states[j]).registration.name@
                != name by {
                assert(summaries[j].label()@ != name);
            }
        },
        None => {
            assert forall|i: int| 0 <= i < states.len() implies (
            #[trigger] states[i]).registration.name@ != name by {
                assert(summaries[i].label()@ != name);
            }
        },
    }
}

/// The states that an answer leads to.
pub open spec fn states_of<R>(next: Next<R>) -> Seq<ServiceState<R>> {
    match next {
        Next::Running(run) => run@.states,
        Next::Restarting(run, _) => run@.states,
        Next::Draining(drain) => drain@.states,
    }
}

/// How often the keys were used when an answer is given.
pub open spec fn uses_of<R>(next: Next<R>) -> Seq<nat> {
    match next {
        Next::Running(run) => run@.uses,
        Next::Restarting(run, _) => run@.uses,
        Next::Draining(drain) => drain@.uses,
    }
}

/// The tasks that run when an answer is given.
pub open spec fn running_of<R>(next: Next<R>) -> Map<Id, usize> {
    match next {
        Next::Running(run) => run@.running,
        Next::Restarting(run, _) => run@.running,
        Next::Draining(drain) => drain@.running,
    }
}

/// An error of a ready service is answered as its restart policy says, for every number
/// of restarts: never retried, always retried after the backoff, or retried after the
/// backoff while fewer than the allowed restarts were made. Without a retry, the fallback
/// either accepts the error or shuts the system down.
pub proof fn law_errors_are_answered_by_the_restart_policy<R>(
    registration: Registration<R>,
    restarts: nat,
    error: ServiceError,
)
    ensures
        ({
            let answer = exit_decision(
                registration,
                restarts,
                true,
                ServiceOutcome::Error(error),
            );
            let fatal = Decision::Shutdown(
                ShutdownCause::FatalService { service: registration.name },
            );
            match registration.policy.failure() {
                RestartPolicy::Never { on_error: ErrorAction::Ignore } => answer
                    == Decision::Continue,
                RestartPolicy::Never { on_error: ErrorAction::Shutdown } => answer == fatal,
                RestartPolicy::Always { backoff } => answer == (Decision::Restart {
                    delay: Some(backoff),
                }),
                RestartPolicy::Attempts { max_restarts, backoff, when_exhausted } => if restarts
                    < max_restarts {
                    answer == (Decision::Restart { delay: Some(backoff) })
                } else {
                    match when_exhausted {
                        ErrorAction::Ignore => answer == Decision::Continue,
                        ErrorAction::Shutdown => answer == fatal,
                    }
                },
            }
        }),
{
}

/// Completion of a ready service is answered as its policy says, for every number of
/// restarts: accepted, answered with a restart at once, or with shutdown.
pub proof fn law_completions_are_answered_by_the_exit_action<R>(
    registration: Registration<R>,
    restarts: nat,
)
    ensures
        ({
            let answer = exit_decision(registration, restarts, true, ServiceOutcome::Completed);
            match registration.policy.completion() {
                ExitAction::Ignore => answer == Decision::Continue,
                ExitAction::Restart => answer == (Decision::Restart { delay: None }),
                ExitAction::Shutdown => answer == Decision::Shutdown(ShutdownCause::Requested),
            }
        }),
{
}

/// A policy that always restarts keeps a failing service going: however often it fails,
/// each failure is answered with a restart, and the system is not shut down.
pub proof fn law_always_is_granted<R>(
    states: Seq<ServiceState<R>>,
    index: usize,
    error: ServiceError,
    backoff: Duration,
    count: nat,
)
    requires
        index < states.len(),
        states[index as int].restarts == 0,
        states[index as int].registration.policy.failure() == (RestartPolicy::Always { backoff }),
        count <= usize::MAX,
    ensures
        replay(states, failures(index, error, count)).0[index as int].restarts == count,
        replay(states, failures(index, error, count)).1 is None,
    decreases count,
{
    if count > 0 {
        let earlier = failures(index, error, (count - 1) as nat);
        assert(failures(index, error, count).drop_last() =~= earlier);
        law_always_is_granted(states, index, error, backoff, (count - 1) as nat);
        law_registrations_are_kept(states, earlier);
    }
}

/// An answered exit is remembered as it was reported: whatever the answer is, and whether
/// or not the startup gate was crossed, the last outcome of the service is the reported
/// one, and it counts as ready exactly if it was found so.
pub proof fn law_reported_outcome_is_kept<R>(
    view: SupervisionView<R>,
    result: TaskResult,
    ready: bool,
    next: Next<R>,
)
    requires
        result.index < view.states.len(),
        view.follows(result, ready, Ok(next)),
    ensures
        states_of(next)[result.index as int].last_outcome == result.outcome,
        states_of(next)[result.index as int].ready == ready,
{
}

/// What an ended task leaves behind: a task that ran to completion is remembered by what
/// it reported, an aborted one as cancelled, and a panicked one by an error with the text
/// of the panic.
pub proof fn law_ended_tasks_are_remembered<R>(
    view: SupervisionView<R>,
    joined: Joined,
    next: Next<R>,
)
    requires
        view.consistent(),
        view.running.contains_key(joined.task()),
        view.exits(joined, Ok(next)),
    ensures
        match joined {
            Joined::Finished { result, .. } => result.index < view.states.len() ==> states_of(
                next,
            )[result.index as int].last_outcome == result.outcome,
            Joined::Aborted { task_id } => states_of(
                next,
            )[view.running[task_id] as int].last_outcome is Cancelled,
            Joined::Failed { task_id, message } => {
                let outcome = states_of(next)[view.running[task_id] as int].last_outcome;
                outcome is Error && outcome->Error_0@ == message@
            },
        },
{
}

/// During shutdown too, an ended task is remembered by what it contributed, the other
/// services are left alone, and a service that does not complete becomes no readier.
pub proof fn law_ended_tasks_are_remembered_during_shutdown<R>(
    before: DrainView<R>,
    joined: Joined,
    after: DrainView<R>,
)
    requires
        before.consistent(),
        before.running.contains_key(joined.task()),
        joined matches Joined::Finished { result, .. } ==> result.index
            == before.running[joined.task()],
        before.notes(joined, after, Ok(())),
    ensures
        ({
            let index = before.running[joined.task()] as int;
            let outcome = after.states[index].last_outcome;
            &&& match joined {
                Joined::Finished { result, .. } => outcome == result.outcome,
                Joined::Aborted { .. } => outcome is Cancelled,
                Joined::Failed { message, .. } => outcome is Error && outcome->Error_0@
                    == message@,
            }
            &&& after.states[index].ready == (before.states[index].ready || outcome is Completed)
            &&& forall|j: int|
                0 <= j < before.states.len() && j != index ==> #[trigger] after.states[j]
                    == before.states[j]
            &&& after.running == before.running.remove(joined.task())
        }),
{
}

/// Over a whole run, the last outcome of a service is that of its last exit that was
/// answered.
pub proof fn law_last_answered_exit_is_remembered<R>(
    states: Seq<ServiceState<R>>,
    exits: Seq<Exit>,
    k: int,
)
    requires
        0 <= k < exits.len(),
        exits[k].result.index < states.len(),
        replay(states, exits.take(k)).1 is None,
        forall|j: int|
            k < j < exits.len() && (#[trigger] exits[j]).result.index == exits[k].result.index
                ==> replay(states, exits.take(j)).1 is Some,
    ensures
        replay(states, exits).0[exits[k].result.index as int].last_outcome
            == exits[k].result.outcome,
    decreases exits.len(),
{
    let earlier = exits.drop_last();
    let last = exits.len() - 1;
    law_registrations_are_kept(states, earlier);
    assert(exits.take(last) =~= earlier);
    if k < last {
        assert(earlier.take(k) =~= exits.take(k));
        assert forall|j: int|
            k < j < earlier.len() && (#[trigger] earlier[j]).result.index
                == earlier[k].result.index implies replay(states, earlier.take(j)).1 is Some by {
            assert(exits[j].result.index == exits[k].result.index);
            assert(earlier.take(j) =~= exits.take(j));
        }
        law_last_answered_exit_is_remembered(states, earlier, k);
        if exits[last].result.index == exits[k].result.index {
            assert(replay(states, exits.take(last)).1 is Some);
        }
    }
}

/// Answering an exit changes the shared readiness by nothing but the crossing of the
/// exiting service's own startup gate, if it completed: that is the only use the
/// supervisor makes of its keys. No other service is touched, and no task but the ended
/// one is forgotten.
pub proof fn law_answers_use_no_other_key<R>(
    view: SupervisionView<R>,
    joined: Joined,
    next: Next<R>,
    index: int,
)
    requires
        view.consistent(),
        view.running.contains_key(joined.task()),
        joined matches Joined::Finished { result, .. } ==> result.index
            == view.running[joined.task()],
        view.exits(joined, Ok(next)),
        0 <= index < view.uses.len(),
    ensures
        uses_of(next).len() == view.uses.len(),
        uses_of(next)[index] == view.uses[index] + if index == view.running[joined.task()]
            && joined is Finished && joined->result.outcome is Completed {
            1int
        } else {
            0int
        },
        running_of(next) == view.running.remove(joined.task()),
        forall|j: int|
            0 <= j < view.states.len() && j != view.running[joined.task()] ==> #[trigger] states_of(
                next,
            )[j] == view.states[j],
{
}

/// During shutdown the supervisor uses a key only for a service that completes, and only
/// the key of that service.
pub proof fn law_shutdown_uses_no_other_key<R>(
    before: DrainView<R>,
    joined: Joined,
    after: DrainView<R>,
    noted: Result<(), Error>,
    index: int,
)
    requires
        before.consistent(),
        before.running.contains_key(joined.task()) ==> (joined matches Joined::Finished {
            result,
            ..
        } ==> result.index == before.running[joined.task()]),
        before.notes(joined, after, noted),
        0 <= index < before.uses.len(),
    ensures
        after.uses.len() == before.uses.len(),
        after.uses[index] == before.uses[index] + if before.running.contains_key(joined.task())
            && index == before.running[joined.task()] && joined is Finished
            && joined->result.outcome is Completed {
            1int
        } else {
            0int
        },
        before.timed_out().uses == before.uses,
{
}

/// A gated service that neither declared itself ready nor completed, now or before, fails
/// readiness when it ends: the system is shut down in its name, under every policy. It is
/// not restarted, and what it reported is kept.
pub proof fn law_silent_exits_fail_readiness<R>(
    started: Seq<ServiceState<R>>,
    events: Seq<Event>,
    view: SupervisionView<R>,
    found: Seq<MemberReadiness>,
    result: TaskResult,
    ready: bool,
    next: Next<R>,
)
    requires
        forall|i: int|
            0 <= i < started.len() ==> (#[trigger] started[i]).ready ==> started[
                i
            ].registration.readiness == ReadinessMode::Immediate,
        replay(started, exits_of(state_modes(started), events)) == (
            view.states,
            None::<ShutdownCause>,
        ),
        found == members_after(state_modes(started), events),
        result.index < view.states.len(),
        ready == (view.states[result.index as int].ready || member_ready(
            if result.outcome is Completed {
                marked(found, result.index as int)
            } else {
                found
            },
            result.index as int,
        )),
        view.follows(result, ready, Ok(next)),
        started[result.index as int].registration.readiness == ReadinessMode::Explicit,
        !(result.outcome is Completed),
        forall|k: int|
            0 <= k < events.len() ==> !crosses(#[trigger] events[k], result.index as int),
    ensures
        !ready,
        next matches Next::Draining(drain) && drain@.cause == (ShutdownCause::ReadinessFailed {
            service: started[result.index as int].registration.name,
        }),
        states_of(next)[result.index as int].restarts
            == view.states[result.index as int].restarts,
        states_of(next)[result.index as int].last_outcome == result.outcome,
{
    let modes = state_modes(started);
    let index = result.index as int;
    let longer = events.push(Event::Exit { result });
    law_registrations_are_kept(started, exits_of(modes, events));
    law_exits_are_answered_by_signals_and_completions(
        started,
        events,
        view,
        found,
        result,
        ready,
        Ok(next),
    );
    assert(modes[index] == started[index].registration.readiness);
    assert forall|k: int| 0 <= k < longer.len() implies !crosses(#[trigger] longer[k], index) by {
        if k < events.len() {
            assert(longer[k] == events[k]);
        }
    }
}

/// The supervisor cancels the root token only when it answers with shutdown: as long as
/// it goes on or restarts a service, it still has the right to cancel, which it gives up
/// by cancelling.
pub proof fn law_token_is_cancelled_at_shutdown_only<R>(
    view: SupervisionView<R>,
    joined: Joined,
    next: Next<R>,
)
    requires
        view.exits(joined, Ok(next)),
    ensures
        match next {
            Next::Running(run) => run@.root == view.root && !cancelled(run@.root),
            Next::Restarting(run, launch) => run@.root == view.root && !cancelled(run@.root)
                && launch.token == view.root,
            Next::Draining(drain) => drain@.root == once_cancelled(view.root) && cancelled(
                drain@.root,
            ),
        },
{
    match next {
        Next::Running(run) => run.lemma_consistent(),
        Next::Restarting(run, _) => run.lemma_consistent(),
        Next::Draining(_) => {},
    }
}

/// A restart launches the same service again: under the token of the run, with the signal
/// that its readiness mode asks for, at once after completion and after exactly the
/// backoff of its policy after an error. The restart is counted once.
pub proof fn law_restarts_launch_the_same_service<R>(
    view: SupervisionView<R>,
    result: TaskResult,
    ready: bool,
    run: Supervision<R>,
    launch: Launch,
)
    requires
        result.index < view.states.len(),
        view.states[result.index as int].restarts < usize::MAX,
        view.follows(result, ready, Ok(Next::Restarting(run, launch))),
    ensures
        ready,
        launch.index == result.index,
        launch.token == view.root,
        ({
            let registration = view.states[result.index as int].registration;
            &&& launch.readiness.gate() == match registration.readiness {
                ReadinessMode::Immediate => None,
                ReadinessMode::Explicit => Some((view.tracker, result.index)),
            }
            &&& result.outcome is Completed || result.outcome is Error
            &&& result.outcome is Completed ==> launch.restart_delay is None
            &&& result.outcome is Error ==> match registration.policy.failure() {
                RestartPolicy::Never { .. } => false,
                RestartPolicy::Always { backoff } => launch.restart_delay == Some(backoff),
                RestartPolicy::Attempts { backoff, .. } => launch.restart_delay == Some(backoff),
            }
        }),
        run@.states[result.index as int].restarts == view.states[result.index as int].restarts
            + 1,
{
}

/// Only a restart is counted: any other answer leaves the count as it was.
pub proof fn law_other_answers_count_nothing<R>(
    view: SupervisionView<R>,
    result: TaskResult,
    ready: bool,
    next: Next<R>,
)
    requires
        result.index < view.states.len(),
        view.follows(result, ready, Ok(next)),
        !(next is Restarting),
    ensures
        states_of(next)[result.index as int].restarts
            == view.states[result.index as int].restarts,
{
}

/// A run starts with every registered service, in order, none of them restarted, each
/// counted as cancelled until it reports something else, and ready exactly if it has no
/// startup gate.
pub proof fn law_runs_start_fresh<R>(registrations: Seq<Registration<R>>, index: int)
    requires
        0 <= index < registrations.len(),
    ensures
        fresh_states(registrations).len() == registrations.len(),
        fresh_states(registrations)[index].registration == registrations[index],
        fresh_states(registrations)[index].restarts == 0,
        fresh_states(registrations)[index].last_outcome is Cancelled,
        fresh_states(registrations)[index].ready == (registrations[index].readiness
            == ReadinessMode::Immediate),
{
}

/// A registration without an explicit policy accepts completion and takes the restart
/// policy of the builder; an explicit policy is taken as it is.
pub proof fn law_explicit_policies_win(
    chosen: Option<ServicePolicy>,
    restart: RestartPolicy,
    policy: ServicePolicy,
)
    requires
        resolves_policy(chosen, restart, policy),
    ensures
        chosen matches Some(explicit) ==> policy == explicit,
        chosen is None ==> policy.completion() == ExitAction::Ignore && policy.failure() == restart,
{
}

/// The summary lists every service once, in registration order, with its name, its last
/// outcome and its restarts.
pub proof fn law_summary_lists_every_service<R>(
    summaries: Seq<ServiceSummary>,
    states: Seq<ServiceState<R>>,
    index: int,
)
    requires
        summarizes(summaries, states),
        0 <= index < states.len(),
    ensures
        summaries.len() == states.len(),
        summaries[index].label() == states[index].registration.name,
        summaries[index].last_outcome() == states[index].last_outcome,
        summaries[index].restart_count() == states[index].restarts,
{
}

/// Tasks that ran to completion speak for themselves, aborted ones count as cancelled and
/// panicked ones as failed, for the service that they were recorded for.
pub proof fn law_tasks_contribute_their_end(joined: Joined, recorded: usize, result: TaskResult)
    requires
        joined.contributes(recorded, result),
    ensures
        match joined {
            Joined::Finished { result: reported, .. } => result == reported,
            Joined::Aborted { .. } => result.index == recorded && result.outcome is Cancelled,
            Joined::Failed { message, .. } => result.index == recorded && result.outcome is Error
                && result.outcome->Error_0@ == message@,
        },
{
}

/// The token wins a race that the service did not finish; otherwise the service is
/// reported as it finished.
pub proof fn law_token_wins_unfinished_races(
    finished: Option<ServiceOutcome>,
    outcome: ServiceOutcome,
)
    requires
        call_ensures(race_outcome, (finished,), outcome),
    ensures
        finished is None ==> outcome is Cancelled,
        finished matches Some(reported) ==> outcome == reported,
{
}

/// A launch waits for exactly its delay; a service whose delay was cut short by
/// cancellation is not started and counts as cancelled.
pub proof fn law_launches_wait_for_their_delay(
    restart_delay: Option<Duration>,
    begun: RunnerAction,
    slept: Option<()>,
    resumed: RunnerAction,
)
    requires
        call_ensures(begin_launch, (restart_delay,), begun),
        call_ensures(after_delay, (slept,), resumed),
    ensures
        restart_delay is None ==> begun is Start,
        restart_delay matches Some(delay) ==> begun == (RunnerAction::Sleep { delay }),
        slept is Some ==> resumed is Start,
        slept is None ==> resumed == RunnerAction::Report(ServiceOutcome::Cancelled),
{
}

} // verus!
