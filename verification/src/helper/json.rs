//! The JSON helpers: `json` and `json_path`.
use vstd::prelude::*;

use crate::helper::{invalid, invalid_message, not_found, not_found_message, outcome};
use crate::text::concat;
use crate::value::{lemma_view_values, view_values, JVal, Value};

verus! {

/// `json`: the first parameter itself.
pub open spec fn json_helper(ps: Seq<JVal>) -> Result<JVal, Seq<char>> {
    if ps.len() == 0 {
        Err(not_found("json"@))
    } else {
        Ok(ps[0])
    }
}

/// What `json_path` gives for its parameters `ps`, with `query` finding
/// what a path selects in a value: the result `r` is one that they allow.
/// There must be two parameters, the second a text.
pub open spec fn path_outcome<Q: Fn(&Value, &String) -> Result<Value, String>>(
    ps: Seq<Value>,
    query: Q,
    r: Result<Value, String>,
) -> bool {
    if ps.len() != 2 || !(ps[1] is String) {
        outcome(r) == Err::<JVal, Seq<char>>(invalid("json_path"@))
    } else {
        exists|q: Result<Value, String>|
            #[trigger] query.ensures((&ps[0], &ps[1]->String_0), q) && match q {
                Ok(v) => outcome(r) == Ok::<JVal, Seq<char>>(v@),
                Err(e) => outcome(r) == Err::<JVal, Seq<char>>(invalid("json_path"@) + ": "@ + e@),
            }
    }
}

/// The `json` helper.
#[derive(Debug, Clone, Copy)]
pub struct JsonHelper {}

impl JsonHelper {
    pub fn call(&self, params: &Vec<Value>) -> (r: Result<Value, String>)
        ensures
            outcome(r) == json_helper(view_values(params@)),
    {
        proof {
            lemma_view_values(params@);
            reveal_strlit("json");
        }
        if params.len() == 0 {
            return Err(not_found_message("json"));
        }
        Ok(params[0].deep_clone())
    }
}

/// The `json_path` helper.
#[derive(Debug, Clone, Copy)]
pub struct PathHelper {}

impl PathHelper {
    pub fn call<Q: Fn(&Value, &String) -> Result<Value, String>>(&self, params: &Vec<Value>, query: &Q) -> (r: Result<
        Value,
        String,
    >)
        requires
            forall|v: &Value, p: &String| query.requires((v, p)),
        ensures
            path_outcome(params@, *query, r),
    {
        proof {
            reveal_strlit("json_path");
        }
        if params.len() != 2 {
            return Err(invalid_message("json_path"));
        }
        let path = match &params[1] {
            Value::String(p) => p,
            _ => {
                return Err(invalid_message("json_path"));
            },
        };
        let q = query(&params[0], path);
        let ghost qg = q;
        let res: Result<Value, String> = match q {
            Ok(v) => Ok(v),
            Err(e) => {
                let head = invalid_message("json_path");
                let head = concat(head.as_str(), ": ");
                Err(concat(head.as_str(), e.as_str()))
            },
        };
        assert(query.ensures((&params@[0], &params@[1]->String_0), qg));
        res
    }
}

} // verus!
