//! Coordinated shutdown.
//!
//! Once the root token is cancelled, [`Drain`] collects what the remaining tasks
//! report. The embedding program asks [`Drain::next`] what to do, does it, and
//! reports back, until it is told to collect what is left.
use std::time::Duration;

use tokio::task::Id;
use tokio_util::sync::CancellationToken;
use vstd::prelude::*;

use crate::error::Error;
use crate::lifecycle::{
    all_seen_ready, final_readiness, join_result, lemma_modes_kept, mark_cancelled, state_modes,
    state_mut, summarize, summarizes, tasks_known, with_outcome, written_off, ServiceState,
};
use crate::readiness::{after_settling, ungated, SharedReadiness, Steward, SupervisorReadiness};
use crate::summary::{RunSummary, ShutdownCause};
use crate::task::{Joined, RunningTasks, TaskResult};
use crate::time::{nanos, remaining};

verus! {

/// What is known during shutdown.
pub struct DrainView<R> {
    pub states: Seq<ServiceState<R>>,
    pub running: Map<Id, usize>,
    pub tracker: SharedReadiness,
    pub root: CancellationToken,
    pub grace: Duration,
    pub cause: ShutdownCause,
    /// How often the supervisor used its key to each startup gate.
    pub uses: Seq<nat>,
}

impl<R> DrainView<R> {
    /// The readiness is shared for exactly these services, and every recorded task
    /// belongs to one of them.
    pub open spec fn consistent(self) -> bool {
        &&& self.tracker.modes() == state_modes(self.states)
        &&& tasks_known(self.running, self.states.len())
    }

    /// The grace period is over: what still runs is written off.
    pub open spec fn timed_out(self) -> Self {
        DrainView { states: written_off(self.states, self.running), ..self }
    }

    /// `after` and `noted` follow when a task ended as `joined` says.
    ///
    /// A task that was never recorded is an error and changes nothing. Otherwise the
    /// task leaves the record, and what it contributes becomes the last outcome of
    /// its service. A service that completes is ready, and its startup gate is crossed in
    /// the shared readiness.
    pub open spec fn notes(self, joined: Joined, after: Self, noted: Result<(), Error>) -> bool {
        let task_id = joined.task();
        if !self.running.contains_key(task_id) {
            &&& after == self
            &&& noted matches Err(Error::UnknownTask { task_id: shown })
            &&& vstd::string::to_string_from_display_ensures::<Id>(&task_id, shown)
        } else {
            exists|result: TaskResult| #[trigger]
                joined.contributes(self.running[task_id], result) && {
                    if result.index < self.states.len() {
                        &&& noted is Ok
                        &&& result.outcome is Completed ==> self.tracker.settles(
                            result.index,
                            true,
                            true,
                        )
                        &&& after == DrainView {
                            running: self.running.remove(task_id),
                            uses: after_settling(
                                self.uses,
                                result.index,
                                result.outcome is Completed,
                            ),
                            states: with_outcome(
                                self.states,
                                result.index as int,
                                result.outcome,
                            ),
                            ..self
                        }
                    } else {
                        &&& noted == Err::<(), Error>(
                            Error::UnknownServiceIndex { index: result.index },
                        )
                        &&& after == DrainView { running: self.running.remove(task_id), ..self }
                    }
                }
        }
    }
}

/// What to do next during shutdown.
#[derive(Clone, Copy, Debug, PartialEq, Eq)]
pub enum DrainAction {
    /// Wait for a task to end, for `remaining` at most.
    Wait { remaining: Duration },
    /// Abort every task, then collect what is left.
    AbortAll,
    /// Collect what is left.
    Collect,
}

/// A supervisor that is shutting down.
pub struct Drain<R> {
    states: Vec<ServiceState<R>>,
    running: RunningTasks,
    readiness: Steward,
    root: CancellationToken,
    shutdown_timeout: Duration,
    cause: ShutdownCause,
}

impl<R> View for Drain<R> {
    type V = DrainView<R>;

    closed spec fn view(&self) -> DrainView<R> {
        DrainView {
            states: self.states@,
            running: self.running@,
            tracker: self.readiness.shared(),
            root: self.root,
            grace: self.shutdown_timeout,
            cause: self.cause,
            uses: self.readiness.uses(),
        }
    }
}

impl<R> Drain<R> {
    /// The bookkeeping is consistent.
    pub closed spec fn wf(&self) -> bool {
        &&& self.running.wf()
        &&& self.readiness.wf()
        &&& self@.consistent()
    }

    /// Consistent bookkeeping can be told from what is known during shutdown.
    pub proof fn lemma_consistent(&self)
        requires
            self.wf(),
        ensures
            self@.consistent(),
    {
    }

    /// Starts draining.
    pub(crate) fn begin(
        states: Vec<ServiceState<R>>,
        running: RunningTasks,
        readiness: Steward,
        root: CancellationToken,
        shutdown_timeout: Duration,
        cause: ShutdownCause,
    ) -> (drain: Self)
        requires
            running.wf(),
            readiness.wf(),
            readiness.shared().modes() == state_modes(states@),
            tasks_known(running@, states@.len()),
        ensures
            drain.wf(),
            drain@ == (DrainView {
                states: states@,
                running: running@,
                tracker: readiness.shared(),
                root,
                grace: shutdown_timeout,
                cause,
                uses: readiness.uses(),
            }),
    {
        Drain { states, running, readiness, root, shutdown_timeout, cause }
    }

    /// Returns why the supervisor is shutting down.
    pub fn cause(&self) -> (cause: ShutdownCause)
        ensures
            cause == self@.cause,
    {
        self.cause
    }

    /// Decides what to do next, given whether tasks are left and how much time has
    /// passed since shutdown began.
    ///
    /// Once the grace period is over, services that still run are written off as
    /// cancelled.
    pub fn next(&mut self, tasks_empty: bool, elapsed: Duration) -> (action: DrainAction)
        requires
            old(self).wf(),
        ensures
            final(self).wf(),
            if tasks_empty {
                &&& action is Collect
                &&& final(self)@ == old(self)@
            } else if nanos(elapsed) >= nanos(old(self)@.grace) {
                &&& action is AbortAll
                &&& final(self)@ == old(self)@.timed_out()
            } else {
                &&& action matches DrainAction::Wait { remaining }
                &&& nanos(remaining) == nanos(old(self)@.grace) - nanos(elapsed)
                &&& final(self)@ == old(self)@
            },
    {
        if tasks_empty {
            return DrainAction::Collect;
        }
        match remaining(self.shutdown_timeout, elapsed) {
            Some(remaining) => DrainAction::Wait { remaining },
            None => self.on_timeout(),
        }
    }

    /// Reacts to the end of the grace period: services that still run are written
    /// off as cancelled, and their tasks are to be aborted.
    pub fn on_timeout(&mut self) -> (action: DrainAction)
        requires
            old(self).wf(),
        ensures
            final(self).wf(),
            final(self)@ == old(self)@.timed_out(),
            action is AbortAll,
    {
        let ghost before = self.states@;
        mark_cancelled(&self.running, &mut self.states);
        proof {
            lemma_modes_kept(before, self.states@);
        }
        DrainAction::AbortAll
    }

    /// Takes note of what an ended task, as read with
    /// [`read_joined`](crate::task::read_joined), contributes.
    #[verifier::spinoff_prover]
    pub fn on_joined(&mut self, joined: Joined) -> (noted: Result<(), Error>)
        requires
            old(self).wf(),
        ensures
            final(self).wf(),
            old(self)@.notes(joined, final(self)@, noted),
    {
        let ghost before = self@;
        let resolved = join_result(joined, &mut self.running, &mut self.states);
        proof {
            lemma_modes_kept(before.states, self.states@);
            if before.running.contains_key(joined.task()) {
                assert(before.running[joined.task()] < before.states.len());
            }
        }
        let TaskResult { index, outcome } = match resolved {
            Ok(result) => result,
            Err(error) => {
                return Err(error);
            },
        };
        let ghost result = TaskResult { index, outcome };
        assert(joined.contributes(before.running[joined.task()], result));
        let completed = outcome.is_completed();
        if completed {
            let _ = self.readiness.settle(index, true);
        }
        match state_mut(&mut self.states, index) {
            Ok(state) => {
                state.ready = state.ready || completed;
                state.last_outcome = outcome;
            },
            Err(error) => {
                assert(self@ == (DrainView {
                    running: before.running.remove(joined.task()),
                    ..before
                }));
                return Err(error);
            },
        }
        proof {
            assert(self.states@ =~= with_outcome(before.states, index as int, result.outcome));
            lemma_modes_kept(before.states, self.states@);
        }
        Ok(())
    }

    /// Summarizes the run.
    pub fn finish(&self) -> (summary: RunSummary)
        ensures
            summary.cause() == self@.cause,
            exists|shared: SupervisorReadiness| #[trigger]
                self@.tracker.reports(shared) && summary.final_readiness() == if all_seen_ready(
                    self@.states,
                ) {
                    SupervisorReadiness::Ready
                } else {
                    shared
                },
            all_seen_ready(self@.states) || ungated(self@.tracker.modes())
                ==> summary.final_readiness() == SupervisorReadiness::Ready,
            summarizes(summary.entries(), self@.states),
    {
        let shared = self.readiness.state();
        assert(self@.tracker.reports(shared));
        let readiness = final_readiness(&self.states, shared);
        RunSummary::new(self.cause, readiness, summarize(&self.states))
    }
}

} // verus!
