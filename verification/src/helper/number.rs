//! The number helpers of the second set: `num`, where a text that does not
//! read as a number is outside what it accepts, and the four operations.
use vstd::prelude::*;

use crate::helper::basic::{num_accepts, num_helper};
use crate::helper::num::{arith, arith_accepts, arith_outcome, ArithOp};
use crate::helper::outcome;
use crate::value::{view_values, Number, Value};

verus! {

/// The `num` helper.
#[derive(Debug, Clone, Copy)]
pub struct NumHelper;

impl NumHelper {
    pub fn call(&self, params: &Vec<Value>) -> (r: Result<Value, String>)
        requires
            num_accepts(view_values(params@)),
        ensures
            outcome(r) == num_helper(view_values(params@)),
    {
        crate::helper::basic::NumHelper.call(params)
    }

    /// Calls the helper where it accepts the parameters; gives nothing
    /// where it does not.
    pub fn try_call(&self, params: &Vec<Value>) -> (r: Option<Result<Value, String>>)
        ensures
            r is Some <==> num_accepts(view_values(params@)),
            r matches Some(o) ==> outcome(o) == num_helper(view_values(params@)),
    {
        crate::helper::basic::NumHelper.try_call(params)
    }
}

/// The `num_add` helper.
#[derive(Debug, Clone, Copy)]
pub struct NumAddHelper;

impl NumAddHelper {
    pub fn call<S: Fn(&Value) -> String, F: Fn(ArithOp, &Number, &Number) -> Option<Number>>(
        &self,
        params: &Vec<Value>,
        show: &S,
        float_op: &F,
    ) -> (r: Result<Value, String>)
        requires
            arith_accepts(ArithOp::Add, view_values(params@)),
            forall|v: &Value| show.requires((v,)),
            forall|a: &Number, b: &Number| float_op.requires((ArithOp::Add, a, b)),
        ensures
            arith_outcome(ArithOp::Add, params@, *show, *float_op, r),
    {
        arith(ArithOp::Add, params, show, float_op)
    }
}

/// The `num_sub` helper.
#[derive(Debug, Clone, Copy)]
pub struct NumSubHelper;

impl NumSubHelper {
    pub fn call<S: Fn(&Value) -> String, F: Fn(ArithOp, &Number, &Number) -> Option<Number>>(
        &self,
        params: &Vec<Value>,
        show: &S,
        float_op: &F,
    ) -> (r: Result<Value, String>)
        requires
            arith_accepts(ArithOp::Sub, view_values(params@)),
            forall|v: &Value| show.requires((v,)),
            forall|a: &Number, b: &Number| float_op.requires((ArithOp::Sub, a, b)),
        ensures
            arith_outcome(ArithOp::Sub, params@, *show, *float_op, r),
    {
        arith(ArithOp::Sub, params, show, float_op)
    }
}

/// The `num_mul` helper.
#[derive(Debug, Clone, Copy)]
pub struct NumMulHelper;

impl NumMulHelper {
    pub fn call<S: Fn(&Value) -> String, F: Fn(ArithOp, &Number, &Number) -> Option<Number>>(
        &self,
        params: &Vec<Value>,
        show: &S,
        float_op: &F,
    ) -> (r: Result<Value, String>)
        requires
            arith_accepts(ArithOp::Mul, view_values(params@)),
            forall|v: &Value| show.requires((v,)),
            forall|a: &Number, b: &Number| float_op.requires((ArithOp::Mul, a, b)),
        ensures
            arith_outcome(ArithOp::Mul, params@, *show, *float_op, r),
    {
        arith(ArithOp::Mul, params, show, float_op)
    }
}

/// The `num_div` helper.
#[derive(Debug, Clone, Copy)]
pub struct NumDivHelper;

impl NumDivHelper {
    pub fn call<S: Fn(&Value) -> String, F: Fn(ArithOp, &Number, &Number) -> Option<Number>>(
        &self,
        params: &Vec<Value>,
        show: &S,
        float_op: &F,
    ) -> (r: Result<Value, String>)
        requires
            arith_accepts(ArithOp::Div, view_values(params@)),
            forall|v: &Value| show.requires((v,)),
            forall|a: &Number, b: &Number| float_op.requires((ArithOp::Div, a, b)),
        ensures
            arith_outcome(ArithOp::Div, params@, *show, *float_op, r),
    {
        arith(ArithOp::Div, params, show, float_op)
    }
}

} // verus!
