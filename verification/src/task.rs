//! Tasks of the runtime, and the supervisor's record of those that run.
use tokio::task::{Id, JoinError};
use vstd::prelude::*;

use crate::service::ServiceOutcome;

verus! {

/// `tokio`'s task identifier.
#[verifier::external_type_specification]
#[verifier::external_body]
pub struct ExTaskId(Id);

/// `tokio`'s report that a task did not run to completion.
#[verifier::external_type_specification]
#[verifier::external_body]
pub struct ExJoinError(JoinError);

/// What `JoinError::is_cancelled` returns.
pub uninterp spec fn join_cancelled(error: JoinError) -> bool;

/// What `JoinError::id` returns.
pub uninterp spec fn join_task(error: JoinError) -> Id;

/// `JoinError::is_cancelled`: whether the task was aborted, as opposed to having
/// panicked. The answer depends on the error alone.
pub assume_specification[ JoinError::is_cancelled ](error: &JoinError) -> (aborted: bool)
    ensures
        aborted == join_cancelled(*error),
;

/// `JoinError::id`: the task that the error is about. The answer depends on the
/// error alone.
pub assume_specification[ JoinError::id ](error: &JoinError) -> (task_id: Id)
    ensures
        task_id == join_task(*error),
;

/// Calls `tokio`'s comparison of task identifiers.
///
/// Claimed: it tells identifiers apart exactly when they differ.
#[verifier::external_body]
fn same_task(left: &Id, right: &Id) -> (same: bool)
    ensures
        same == (*left == *right),
{
    left == right
}

/// Result payload returned by spawned service tasks.
#[derive(Debug, PartialEq, Eq)]
pub struct TaskResult {
    /// Position of the service in registration order.
    pub index: usize,
    /// What the service reported.
    pub outcome: ServiceOutcome,
}

impl TaskResult {
    /// Creates the result of the service at `index`.
    pub fn new(index: usize, outcome: ServiceOutcome) -> (result: Self)
        ensures
            result == (TaskResult { index, outcome }),
    {
        TaskResult { index, outcome }
    }
}

/// How a task ended.
pub enum Joined {
    /// The task ran to completion.
    Finished { task_id: Id, result: TaskResult },
    /// The task was aborted.
    Aborted { task_id: Id },
    /// The task panicked.
    Failed { task_id: Id, message: String },
}

impl Joined {
    /// The task that ended.
    pub open spec fn task(self) -> Id {
        match self {
            Joined::Finished { task_id, .. } => task_id,
            Joined::Aborted { task_id } => task_id,
            Joined::Failed { task_id, .. } => task_id,
        }
    }

    /// `self` is what the runtime's report `joined` says: a result is passed on, an
    /// abort is recognised as one, and anything else failed with the text that the
    /// runtime's error displays.
    pub open spec fn reads(self, joined: Result<(Id, TaskResult), JoinError>) -> bool {
        match joined {
            Ok((task_id, result)) => self == (Joined::Finished { task_id, result }),
            Err(error) => if join_cancelled(error) {
                self == (Joined::Aborted { task_id: join_task(error) })
            } else {
                &&& self matches Joined::Failed { task_id, message }
                &&& task_id == join_task(error)
                &&& vstd::string::to_string_from_display_ensures::<JoinError>(&error, message)
            },
        }
    }

    /// `result` is what a task that ended like this contributes, given the service
    /// that the task was recorded for. A task that ran to completion speaks for
    /// itself; an aborted one counts as cancelled and a panicked one as failed.
    pub open spec fn contributes(self, recorded: usize, result: TaskResult) -> bool {
        match self {
            Joined::Finished { result: reported, .. } => result == reported,
            Joined::Aborted { .. } => result == (TaskResult {
                index: recorded,
                outcome: ServiceOutcome::Cancelled,
            }),
            Joined::Failed { message, .. } => {
                &&& result.index == recorded
                &&& result.outcome is Error
                &&& result.outcome->Error_0@ == message@
            },
        }
    }
}

/// Reads the runtime's report on a task that ended.
pub fn read_joined(joined: Result<(Id, TaskResult), JoinError>) -> (read: Joined)
    ensures
        read.reads(joined),
{
    match joined {
        Ok((task_id, result)) => Joined::Finished { task_id, result },
        Err(error) => {
            let task_id = error.id();
            if error.is_cancelled() {
                Joined::Aborted { task_id }
            } else {
                let message = error.to_string();
                Joined::Failed { task_id, message }
            }
        },
    }
}

/// Position of `task_id` in `entries`.
spec fn holds_at(entries: Seq<(Id, usize)>, task_id: Id, at: int) -> bool {
    0 <= at < entries.len() && entries[at].0 == task_id
}

/// Which service each running task belongs to.
pub struct RunningTasks {
    entries: Vec<(Id, usize)>,
}

impl View for RunningTasks {
    type V = Map<Id, usize>;

    closed spec fn view(&self) -> Map<Id, usize> {
        Map::new(
            |task_id: Id| exists|at: int| holds_at(self.entries@, task_id, at),
            |task_id: Id|
                self.entries@[choose|at: int| holds_at(self.entries@, task_id, at)].1,
        )
    }
}

impl RunningTasks {
    /// No task is recorded twice.
    pub closed spec fn wf(&self) -> bool {
        forall|i: int, j: int|
            0 <= i < j < self.entries@.len() ==> (#[trigger] self.entries@[i]).0 != (
            #[trigger] self.entries@[j]).0
    }

    proof fn lemma_view_at(&self, at: int)
        requires
            self.wf(),
            0 <= at < self.entries@.len(),
        ensures
            self@.contains_key(self.entries@[at].0),
            self@[self.entries@[at].0] == self.entries@[at].1,
    {
        let task_id = self.entries@[at].0;
        assert(holds_at(self.entries@, task_id, at));
        let found = choose|i: int| holds_at(self.entries@, task_id, i);
        assert(holds_at(self.entries@, task_id, found));
        assert(found == at);
    }

    /// Creates an empty record.
    pub fn new() -> (running: Self)
        ensures
            running.wf(),
            running@ == Map::<Id, usize>::empty(),
    {
        let running = RunningTasks { entries: Vec::new() };
        assert(running@ =~= Map::<Id, usize>::empty());
        running
    }

    /// Returns where `task_id` is recorded, or how many tasks are recorded when it
    /// is not.
    fn find(&self, task_id: &Id) -> (at: usize)
        requires
            self.wf(),
        ensures
            at <= self.entries@.len(),
            at < self.entries@.len() ==> self.entries@[at as int].0 == *task_id,
            at == self.entries@.len() ==> !self@.contains_key(*task_id),
    {
        let mut at: usize = 0;
        while at < self.entries.len()
            invariant
                at <= self.entries@.len(),
                forall|i: int| 0 <= i < at ==> (#[trigger] self.entries@[i]).0 != *task_id,
            decreases self.entries@.len() - at,
        {
            if same_task(&self.entries[at].0, task_id) {
                return at;
            }
            at = at + 1;
        }
        at
    }

    /// Returns the service that `task_id` runs.
    pub fn get(&self, task_id: &Id) -> (index: Option<usize>)
        requires
            self.wf(),
        ensures
            index == if self@.contains_key(*task_id) {
                Some(self@[*task_id])
            } else {
                None
            },
    {
        let at = self.find(task_id);
        if at < self.entries.len() {
            proof {
                self.lemma_view_at(at as int);
            }
            Some(self.entries[at].1)
        } else {
            None
        }
    }

    /// Records that `task_id` runs the service at `index`.
    pub fn insert(&mut self, task_id: Id, index: usize)
        requires
            old(self).wf(),
        ensures
            final(self).wf(),
            final(self)@ == old(self)@.insert(task_id, index),
    {
        let at = self.find(&task_id);
        let ghost before = *self;
        if at < self.entries.len() {
            self.entries.set(at, (task_id, index));
        } else {
            self.entries.push((task_id, index));
        }
        proof {
            assert(self.wf()) by {
                assert forall|i: int|
                    0 <= i < before.entries@.len() && (#[trigger] before.entries@[i]).0
                        == task_id implies i == at by {
                    before.lemma_view_at(i);
                }
            }
            assert forall|other: Id|
                #![trigger self@.contains_key(other)]
                self@.contains_key(other) == before@.insert(task_id, index).contains_key(other) && (
                self@.contains_key(other) ==> self@[other] == before@.insert(
                    task_id,
                    index,
                )[other]) by {
                if self@.contains_key(other) {
                    let i = choose|i: int| holds_at(self.entries@, other, i);
                    assert(holds_at(self.entries@, other, i));
                    self.lemma_view_at(i);
                    if i != at {
                        before.lemma_view_at(i);
                    }
                }
                if before@.contains_key(other) {
                    let i = choose|i: int| holds_at(before.entries@, other, i);
                    assert(holds_at(before.entries@, other, i));
                    self.lemma_view_at(i);
                }
                self.lemma_view_at(at as int);
            }
            assert(self@ =~= before@.insert(task_id, index));
        }
    }

    /// Drops `task_id` from the record and returns the service it ran.
    pub fn remove(&mut self, task_id: &Id) -> (index: Option<usize>)
        requires
            old(self).wf(),
        ensures
            final(self).wf(),
            final(self)@ == old(self)@.remove(*task_id),
            index == if old(self)@.contains_key(*task_id) {
                Some(old(self)@[*task_id])
            } else {
                None
            },
    {
        let at = self.find(task_id);
        let ghost before = *self;
        if at < self.entries.len() {
            proof {
                before.lemma_view_at(at as int);
            }
            let (_, index) = self.entries.remove(at);
            proof {
                assert forall|i: int| 0 <= i < self.entries@.len() implies #[trigger] self.entries@[i]
                    == before.entries@[if i < at {
                    i
                } else {
                    i + 1
                }] by {}
                assert(self.wf());
                assert forall|other: Id|
                    #![trigger self@.contains_key(other)]
                    self@.contains_key(other) == before@.remove(*task_id).contains_key(other) && (
                    self@.contains_key(other) ==> self@[other] == before@[other]) by {
                    if self@.contains_key(other) {
                        let i = choose|i: int| holds_at(self.entries@, other, i);
                        assert(holds_at(self.entries@, other, i));
                        self.lemma_view_at(i);
                        let j = if i < at {
                            i
                        } else {
                            i + 1
                        };
                        assert(self.entries@[i] == before.entries@[j]);
                        before.lemma_view_at(j);
                    }
                    if before@.contains_key(other) && other != *task_id {
                        let j = choose|j: int| holds_at(before.entries@, other, j);
                        assert(holds_at(before.entries@, other, j));
                        let i = if j < at {
                            j
                        } else {
                            j - 1
                        };
                        assert(self.entries@[i] == before.entries@[j]);
                        self.lemma_view_at(i);
                    }
                }
                assert(self@ =~= before@.remove(*task_id));
            }
            Some(index)
        } else {
            assert(self@.remove(*task_id) =~= self@);
            None
        }
    }

    /// Returns the services that have a running task, one entry for each task.
    pub fn services(&self) -> (services: Vec<usize>)
        requires
            self.wf(),
        ensures
            forall|index: usize| services@.contains(index) <==> self@.contains_value(index),
    {
        let mut services: Vec<usize> = Vec::new();
        let mut at: usize = 0;
        while at < self.entries.len()
            invariant
                at <= self.entries@.len(),
                services@.len() == at,
                forall|i: int| 0 <= i < at ==> #[trigger] services@[i] == self.entries@[i].1,
            decreases self.entries@.len() - at,
        {
            services.push(self.entries[at].1);
            at = at + 1;
        }
        proof {
            assert forall|index: usize| services@.contains(index) <==> self@.contains_value(
                index,
            ) by {
                if services@.contains(index) {
                    let i = choose|i: int| 0 <= i < services@.len() && services@[i] == index;
                    self.lemma_view_at(i);
                    assert(self@.contains_key(self.entries@[i].0));
                }
                if self@.contains_value(index) {
                    let task_id = choose|task_id: Id| #[trigger]
                        self@.contains_key(task_id) && self@[task_id] == index;
                    let i = choose|i: int| holds_at(self.entries@, task_id, i);
                    assert(holds_at(self.entries@, task_id, i));
                    self.lemma_view_at(i);
                    assert(services@[i] == index);
                }
            }
        }
        services
    }
}

/// Reading a report keeps it: the task is the reported one, a result is passed on, and of
/// the tasks without a result exactly the aborted ones are read as aborted.
pub proof fn law_reading_keeps_the_report(
    joined: Result<(Id, TaskResult), JoinError>,
    read: Joined,
)
    requires
        read.reads(joined),
    ensures
        match joined {
            Ok((task_id, result)) => read == (Joined::Finished { task_id, result }),
            Err(error) => {
                &&& read.task() == join_task(error)
                &&& read is Aborted <==> join_cancelled(error)
                &&& read is Failed <==> !join_cancelled(error)
            },
        },
{
}

} // verus!
