//! The boolean helpers: `bool`, `all` and `any`.
use vstd::prelude::*;

use crate::helper::{json_access, json_access_message, not_found, not_found_message, outcome};
use crate::text::{owned, trim, trim_text};
use crate::value::{lemma_view_values, str_eq, view_values, JVal, Value};

verus! {

/// A text without surrounding white space read as a boolean: `true` and
/// `false` are the two it reads.
pub open spec fn bool_text(t: Seq<char>) -> Option<bool> {
    if t == "true"@ {
        Some(true)
    } else if t == "false"@ {
        Some(false)
    } else {
        None
    }
}

/// Reads a text without surrounding white space as a boolean.
pub fn read_bool(t: &str) -> (r: Option<bool>)
    ensures
        r == bool_text(t@),
{
    proof {
        reveal_strlit("true");
        reveal_strlit("false");
    }
    if str_eq(t, "true") {
        Some(true)
    } else if str_eq(t, "false") {
        Some(false)
    } else {
        None
    }
}

/// `bool`: a text is read as a boolean once trimmed; a boolean is given
/// back; anything else is refused.
pub open spec fn bool_helper(ps: Seq<JVal>) -> Result<JVal, Seq<char>> {
    if ps.len() == 0 {
        Err(not_found("num"@))
    } else {
        match ps[0] {
            JVal::Str(x) => match bool_text(trim_text(x)) {
                Some(b) => Ok(JVal::Bool(b)),
                None => Err(json_access()),
            },
            JVal::Bool(b) => Ok(JVal::Bool(b)),
            _ => Err("\"bool\" can not convert "@),
        }
    }
}

/// `all` over the parameters from the first: `false` at the first `false`,
/// an error at a parameter that is not a boolean before it, `true` when
/// every one is `true`.
pub open spec fn all_from(ps: Seq<JVal>) -> Result<JVal, Seq<char>>
    decreases ps.len(),
{
    if ps.len() == 0 {
        Ok(JVal::Bool(true))
    } else {
        match ps[0] {
            JVal::Bool(b) => if !b {
                Ok(JVal::Bool(false))
            } else {
                all_from(ps.skip(1))
            },
            _ => Err("\"all\" only accept bool"@),
        }
    }
}

/// `any` over the parameters from the first: `true` at the first `true`,
/// an error at a parameter that is not a boolean before it, `false` when
/// every one is `false`.
pub open spec fn any_from(ps: Seq<JVal>) -> Result<JVal, Seq<char>>
    decreases ps.len(),
{
    if ps.len() == 0 {
        Ok(JVal::Bool(false))
    } else {
        match ps[0] {
            JVal::Bool(b) => if b {
                Ok(JVal::Bool(true))
            } else {
                any_from(ps.skip(1))
            },
            _ => Err("\"any\" only accept bool"@),
        }
    }
}

/// `all`: at least one parameter is needed.
pub open spec fn all_helper(ps: Seq<JVal>) -> Result<JVal, Seq<char>> {
    if ps.len() == 0 {
        Err(not_found("all"@))
    } else {
        all_from(ps)
    }
}

/// `any`: at least one parameter is needed.
pub open spec fn any_helper(ps: Seq<JVal>) -> Result<JVal, Seq<char>> {
    if ps.len() == 0 {
        Err(not_found("any"@))
    } else {
        any_from(ps)
    }
}

/// Evaluates `all` (where `conj` holds) or `any` over the parameters.
pub fn fold_bools(params: &Vec<Value>, conj: bool) -> (r: Result<Value, String>)
    ensures
        conj ==> outcome(r) == all_helper(view_values(params@)),
        !conj ==> outcome(r) == any_helper(view_values(params@)),
{
    let ghost vs = view_values(params@);
    proof {
        lemma_view_values(params@);
        reveal_strlit("all");
        reveal_strlit("any");
    }
    let n = params.len();
    if n == 0 {
        if conj {
            return Err(not_found_message("all"));
        } else {
            return Err(not_found_message("any"));
        }
    }
    let mut i: usize = 0;
    assert(vs.skip(0) == vs);
    while i < n
        invariant
            n == params@.len(),
            vs == view_values(params@),
            vs.len() == n,
            forall|j: int| 0 <= j < n ==> #[trigger] vs[j] == params@[j]@,
            i <= n,
            conj ==> all_from(vs) == all_from(vs.skip(i as int)),
            !conj ==> any_from(vs) == any_from(vs.skip(i as int)),
        decreases n - i,
    {
        assert(vs.skip(i as int)[0] == vs[i as int]);
        assert(vs.skip(i as int).skip(1) == vs.skip(i + 1));
        assert(vs[i as int] == params@[i as int]@);
        match &params[i] {
            Value::Bool(b) => {
                if conj && !*b {
                    return Ok(Value::Bool(false));
                }
                if !conj && *b {
                    return Ok(Value::Bool(true));
                }
            },
            _ => {
                if conj {
                    return Err(owned("\"all\" only accept bool"));
                } else {
                    return Err(owned("\"any\" only accept bool"));
                }
            },
        }
        i = i + 1;
    }
    assert(vs.skip(n as int).len() == 0);
    Ok(Value::Bool(conj))
}

/// The `bool` helper.
#[derive(Debug, Clone, Copy)]
pub struct BoolHelper;

impl BoolHelper {
    pub fn call(&self, params: &Vec<Value>) -> (r: Result<Value, String>)
        ensures
            outcome(r) == bool_helper(view_values(params@)),
    {
        proof {
            lemma_view_values(params@);
            reveal_strlit("num");
        }
        if params.len() == 0 {
            return Err(not_found_message("num"));
        }
        match &params[0] {
            Value::String(x) => {
                let t = trim(x.as_str());
                match read_bool(t.as_str()) {
                    Some(b) => Ok(Value::Bool(b)),
                    None => Err(json_access_message()),
                }
            },
            Value::Bool(b) => Ok(Value::Bool(*b)),
            _ => Err(owned("\"bool\" can not convert ")),
        }
    }
}

/// The `all` helper.
#[derive(Debug, Clone, Copy)]
pub struct AllHelper;

impl AllHelper {
    pub fn call(&self, params: &Vec<Value>) -> (r: Result<Value, String>)
        ensures
            outcome(r) == all_helper(view_values(params@)),
    {
        fold_bools(params, true)
    }
}

/// The `any` helper.
#[derive(Debug, Clone, Copy)]
pub struct AnyHelper;

impl AnyHelper {
    pub fn call(&self, params: &Vec<Value>) -> (r: Result<Value, String>)
        ensures
            outcome(r) == any_helper(view_values(params@)),
    {
        fold_bools(params, false)
    }
}

} // verus!
