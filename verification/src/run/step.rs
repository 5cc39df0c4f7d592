//! Step identities.
use vstd::prelude::*;

use crate::action::Id;
use crate::run::case::CaseIdStruct;
use crate::text::concat3;

verus! {

/// Step `step` of a case.
#[derive(Debug)]
pub struct IdStruct {
    pub step: String,
    pub case_id: CaseIdStruct,
}

impl IdStruct {
    pub fn new(case_id: CaseIdStruct, step: String) -> (r: IdStruct)
        ensures
            r.case_id == case_id,
            r.step == step,
    {
        IdStruct { step, case_id }
    }

    /// The text of the id.
    pub open spec fn text(self) -> Seq<char> {
        self.case_id.text() + "-"@ + self.step@
    }

    /// The text of the id: the case's and the step id joined by `-`.
    pub fn to_string(&self) -> (r: String)
        ensures
            r@ == self.text(),
    {
        let c = self.case_id.to_string();
        concat3(c.as_str(), "-", self.step.as_str())
    }
}

impl Id for IdStruct {
    fn step(&self) -> (r: &str)
        ensures
            r@ == self.step@,
    {
        self.step.as_str()
    }
}

} // verus!
