//! The first set of helpers: `num`, `bool`, `all` and `any`, where a text
//! that `num` or `bool` cannot read is outside what they accept.
use vstd::prelude::*;

use crate::helper::boolean::{all_helper, any_helper, bool_text, fold_bools, read_bool};
use crate::helper::{not_found, not_found_message, number_from_parts, number_of_parts, number_text, outcome, read_number_text};
use crate::text::{owned, trim, trim_text};
use crate::value::{lemma_view_values, view_values, JVal, Value};

verus! {

/// Whether `num` accepts the parameters: a first parameter that is a text
/// must read as a number once trimmed.
pub open spec fn num_accepts(ps: Seq<JVal>) -> bool {
    ps.len() > 0 ==> match ps[0] {
        JVal::Str(x) => number_text(trim_text(x)) is Some,
        _ => true,
    }
}

/// `num`: a text is read as a number once trimmed; a number is given back;
/// anything else is refused.
pub open spec fn num_helper(ps: Seq<JVal>) -> Result<JVal, Seq<char>> {
    if ps.len() == 0 {
        Err(not_found("num"@))
    } else {
        match ps[0] {
            JVal::Str(x) => Ok(JVal::Num(number_of_parts(number_text(trim_text(x))->Some_0))),
            JVal::Num(n) => Ok(JVal::Num(n)),
            _ => Err("\"num\" can not convert "@),
        }
    }
}

/// Whether `bool` accepts the parameters: a first parameter that is a
/// text must read as a boolean once trimmed.
pub open spec fn bool_accepts(ps: Seq<JVal>) -> bool {
    ps.len() > 0 ==> match ps[0] {
        JVal::Str(x) => bool_text(trim_text(x)) is Some,
        _ => true,
    }
}

/// `bool`: a text is read as a boolean once trimmed; a boolean is given
/// back; anything else is refused.
pub open spec fn bool_helper(ps: Seq<JVal>) -> Result<JVal, Seq<char>> {
    if ps.len() == 0 {
        Err(not_found("num"@))
    } else {
        match ps[0] {
            JVal::Str(x) => Ok(JVal::Bool(bool_text(trim_text(x))->Some_0)),
            JVal::Bool(b) => Ok(JVal::Bool(b)),
            _ => Err("\"bool\" can not convert "@),
        }
    }
}

/// The `num` helper.
#[derive(Debug, Clone, Copy)]
pub struct NumHelper;

impl NumHelper {
    pub fn call(&self, params: &Vec<Value>) -> (r: Result<Value, String>)
        requires
            num_accepts(view_values(params@)),
        ensures
            outcome(r) == num_helper(view_values(params@)),
    {
        proof {
            lemma_view_values(params@);
            reveal_strlit("num");
        }
        if params.len() == 0 {
            return Err(not_found_message("num"));
        }
        match &params[0] {
            Value::String(x) => {
                let t = trim(x.as_str());
                match read_number_text(t.as_str()) {
                    Some((u, i, s)) => Ok(Value::Number(number_from_parts(u, i, s))),
                    None => {
                        proof {
                            assert(false);
                        }
                        Err(owned("\"num\" can not convert "))
                    },
                }
            },
            Value::Number(n) => Ok(Value::Number(n.copy())),
            _ => Err(owned("\"num\" can not convert ")),
        }
    }

    /// Calls the helper where it accepts the parameters; gives nothing
    /// where it does not.
    pub fn try_call(&self, params: &Vec<Value>) -> (r: Option<Result<Value, String>>)
        ensures
            r is Some <==> num_accepts(view_values(params@)),
            r matches Some(o) ==> outcome(o) == num_helper(view_values(params@)),
    {
        proof {
            lemma_view_values(params@);
        }
        if params.len() > 0 {
            if let Value::String(x) = &params[0] {
                let t = trim(x.as_str());
                if read_number_text(t.as_str()).is_none() {
                    return None;
                }
            }
        }
        Some(self.call(params))
    }
}

/// The `bool` helper.
#[derive(Debug, Clone, Copy)]
pub struct BoolHelper;

impl BoolHelper {
    pub fn call(&self, params: &Vec<Value>) -> (r: Result<Value, String>)
        requires
            bool_accepts(view_values(params@)),
        ensures
            outcome(r) == bool_helper(view_values(params@)),
    {
        proof {
            lemma_view_values(params@);
            reveal_strlit("num");
        }
        if params.len() == 0 {
            return Err(not_found_message("num"));
        }
        match &params[0] {
            Value::String(x) => {
                let t = trim(x.as_str());
                match read_bool(t.as_str()) {
                    Some(b) => Ok(Value::Bool(b)),
                    None => {
                        proof {
                            assert(false);
                        }
                        Err(owned("\"bool\" can not convert "))
                    },
                }
            },
            Value::Bool(b) => Ok(Value::Bool(*b)),
            _ => Err(owned("\"bool\" can not convert ")),
        }
    }
}

/// The `all` helper.
#[derive(Debug, Clone, Copy)]
pub struct AllHelper;

impl AllHelper {
    pub fn call(&self, params: &Vec<Value>) -> (r: Result<Value, String>)
        ensures
            outcome(r) == all_helper(view_values(params@)),
    {
        fold_bools(params, true)
    }
}

/// The `any` helper.
#[derive(Debug, Clone, Copy)]
pub struct AnyHelper;

impl AnyHelper {
    pub fn call(&self, params: &Vec<Value>) -> (r: Result<Value, String>)
        ensures
            outcome(r) == any_helper(view_values(params@)),
    {
        fold_bools(params, false)
    }
}

} // verus!
