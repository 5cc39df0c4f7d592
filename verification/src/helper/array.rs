//! The array helpers of the second set: `arr_sub`, `arr_len` and
//! `arr_get`, where a position must lie within the array.
use vstd::prelude::*;

use crate::helper::arr::{arr_get, arr_len, arr_sub, get_accepts, get_outcome, len_helper, sub_accepts, sub_helper};
use crate::helper::outcome;
use crate::value::{view_values, Number, Value};

verus! {

/// The `arr_sub` helper.
#[derive(Debug, Clone, Copy)]
pub struct SubHelper;

impl SubHelper {
    pub fn call<F: Fn(&Number) -> usize>(&self, params: &Vec<Value>, idx: &F) -> (r: Result<Value, String>)
        requires
            sub_accepts(params@, *idx),
            forall|n: &Number| idx.requires((n,)),
        ensures
            outcome(r) == sub_helper(view_values(params@)),
    {
        arr_sub(params, idx)
    }
}

/// The `arr_len` helper.
#[derive(Debug, Clone, Copy)]
pub struct LenHelper {}

impl LenHelper {
    pub fn call(&self, params: &Vec<Value>) -> (r: Result<Value, String>)
        requires
            params@.len() >= 1,
        ensures
            outcome(r) == len_helper(view_values(params@)),
    {
        arr_len(params)
    }
}

/// The `arr_get` helper: the position must lie within the array, also
/// where it is empty.
#[derive(Debug, Clone, Copy)]
pub struct GetHelper {}

impl GetHelper {
    pub fn call<F: Fn(&Number) -> usize>(&self, params: &Vec<Value>, idx: &F) -> (r: Result<Value, String>)
        requires
            get_accepts(params@, *idx, false),
            forall|n: &Number| idx.requires((n,)),
        ensures
            get_outcome(params@, *idx, false, r),
    {
        arr_get(params, idx, false)
    }
}

} // verus!
