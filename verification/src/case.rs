//! Cases: one run of the steps of a stage on one row of data.
use vstd::prelude::*;

use crate::step::StepAssetStruct;

verus! {

/// The identity of a case.
pub trait CaseId {
    fn case(&self) -> &str;
}

/// The outcome of a case: the assets of its steps, the last of which failed
/// where the case failed; or the message of an error.
#[derive(Debug)]
pub enum CaseState {
    Success(Vec<StepAssetStruct>),
    Error(String),
    Fail(Vec<StepAssetStruct>),
}

impl CaseState {
    pub fn is_ok(&self) -> (b: bool)
        ensures
            b == (*self is Success),
    {
        match self {
            CaseState::Success(_) => true,
            _ => false,
        }
    }
}

} // verus!
