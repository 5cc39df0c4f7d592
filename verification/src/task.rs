//! Tasks and their stages: identities and outcomes.
use vstd::prelude::*;

verus! {

/// The identity of a task run.
pub trait TaskId {
    fn task(&self) -> &str;

    fn exec_id(&self) -> &str;
}

/// The outcome of a task: done, failed with a cause, or stopped by an error.
#[derive(Debug)]
pub enum TaskState {
    Success,
    Fail(String),
    Error(String),
}

impl TaskState {
    pub fn is_ok(&self) -> (b: bool)
        ensures
            b == (*self is Success),
    {
        match self {
            TaskState::Success => true,
            _ => false,
        }
    }
}

/// The identity of one round of a stage of a task run.
pub trait StageId {
    fn stage(&self) -> &str;

    fn exec_id(&self) -> &str;
}

/// The outcome of a stage: done, failed with a cause, or stopped by an error.
#[derive(Debug)]
pub enum StageState {
    Success,
    Fail(String),
    Error(String),
}

impl StageState {
    pub fn is_ok(&self) -> (b: bool)
        ensures
            b == (*self is Success),
    {
        match self {
            StageState::Success => true,
            _ => false,
        }
    }
}

} // verus!
