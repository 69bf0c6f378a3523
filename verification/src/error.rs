//! Supervisor errors.
use vstd::prelude::*;

use crate::text::{decimal, write_decimal};

verus! {

/// Failure of the supervisor itself, as opposed to a failure of a service.
#[derive(Debug, PartialEq, Eq)]
pub enum Error {
    /// The supervisor has no registered services.
    NoServices,
    /// A task ended that the supervisor does not know.
    UnknownTask { task_id: String },
    /// The bookkeeping names a service that does not exist.
    UnknownServiceIndex { index: usize },
}

impl Error {
    /// The text of the error.
    pub open spec fn text(&self) -> Seq<char> {
        match *self {
            Error::NoServices => "cannot run a supervisor without any registered services"@,
            Error::UnknownTask { task_id } => "received completion for unknown supervised task "@
                + task_id@,
            Error::UnknownServiceIndex { index } => "received an out-of-range service index "@
                + decimal(index as nat) + " from supervisor bookkeeping"@,
        }
    }

    /// Returns the text of the error.
    pub fn message(&self) -> (text: String)
        ensures
            text@ == self.text(),
    {
        match self {
            Error::NoServices => {
                "cannot run a supervisor without any registered services".to_owned()
            },
            Error::UnknownTask { task_id } => {
                let mut text = "received completion for unknown supervised task ".to_owned();
                text.append(task_id.as_str());
                text
            },
            Error::UnknownServiceIndex { index } => {
                let mut text = "received an out-of-range service index ".to_owned();
                let number = write_decimal(*index);
                text.append(number.as_str());
                text.append(" from supervisor bookkeeping");
                text
            },
        }
    }
}

} // verus!
