//! The errors that configuring a job can report.

use vstd::prelude::*;
use vstd::string::*;

verus! {

/// Represents errors that can occur during job configuration.
#[derive(Debug, PartialEq, Eq, Clone)]
pub enum SchedulerError {
    /// The provided time string was not a valid 'HH:MM' or 'HH:MM:SS' format.
    InvalidTimeFormat(String),
    /// The job was not given a task to run (missing `.run()`).
    TaskNotSet,
}

/// The message that describes `e` to a person.
pub open spec fn error_message(e: SchedulerError) -> Seq<char> {
    match e {
        SchedulerError::InvalidTimeFormat(s) => "Invalid time format: '"@ + s@
            + "'. Expected 'HH:MM' or 'HH:MM:SS'."@,
        SchedulerError::TaskNotSet => "Job was not given a task to run. Call .run() to set a task."@,
    }
}

impl SchedulerError {
    /// The message that describes the error to a person.
    pub fn message(&self) -> (m: String)
        ensures
            m@ == error_message(*self),
    {
        match self {
            SchedulerError::InvalidTimeFormat(s) => {
                let mut m = String::from_str("Invalid time format: '");
                m.append(s.as_str());
                m.append("'. Expected 'HH:MM' or 'HH:MM:SS'.");
                m
            },
            SchedulerError::TaskNotSet => String::from_str(
                "Job was not given a task to run. Call .run() to set a task.",
            ),
        }
    }
}

} // verus!
