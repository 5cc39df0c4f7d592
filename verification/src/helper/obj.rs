//! The object helpers: `obj` and `obj_contains_key`.
use vstd::prelude::*;

use crate::helper::{invalid, invalid_message, json_access, json_access_message, not_found, not_found_message, outcome};
use crate::text::owned;
use crate::value::{lemma_view_values, lookup, view_values, JVal, Value};

verus! {

/// What `obj` gives for its parameters `ps`, with `parse` reading a text as
/// JSON: the result `r` is one that they allow. A text must read as an
/// object; an object is given back; anything else is refused.
pub open spec fn obj_outcome<P: Fn(&String) -> Option<Value>>(
    ps: Seq<Value>,
    parse: P,
    r: Result<Value, String>,
) -> bool {
    if ps.len() == 0 {
        outcome(r) == Err::<JVal, Seq<char>>(not_found("obj"@))
    } else {
        match ps[0] {
            Value::String(t) => exists|o: Option<Value>|
                #[trigger] parse.ensures((&t,), o) && match o {
                    Some(Value::Object(m)) => outcome(r) == Ok::<JVal, Seq<char>>(JVal::Obj(m@)),
                    _ => outcome(r) == Err::<JVal, Seq<char>>(json_access()),
                },
            Value::Object(m) => outcome(r) == Ok::<JVal, Seq<char>>(JVal::Obj(m@)),
            _ => outcome(r) == Err::<JVal, Seq<char>>("\"obj\" can not convert "@),
        }
    }
}

/// `obj_contains_key`: whether the first parameter, an object, holds the
/// second, a text, as a key.
pub open spec fn obj_contains_key_helper(ps: Seq<JVal>) -> Result<JVal, Seq<char>> {
    if ps.len() < 2 {
        Err(not_found("obj_contains_key"@))
    } else {
        match (ps[0], ps[1]) {
            (JVal::Obj(m), JVal::Str(k)) => Ok(JVal::Bool(lookup(m, k) is Some)),
            _ => Err(invalid("obj_contains_key"@)),
        }
    }
}

/// The `obj` helper.
#[derive(Debug, Clone, Copy)]
pub struct ObjHelper {}

impl ObjHelper {
    pub fn call<P: Fn(&String) -> Option<Value>>(&self, params: &Vec<Value>, parse: &P) -> (r: Result<Value, String>)
        requires
            forall|t: &String| parse.requires((t,)),
        ensures
            obj_outcome(params@, *parse, r),
    {
        proof {
            reveal_strlit("obj");
        }
        if params.len() == 0 {
            return Err(not_found_message("obj"));
        }
        match &params[0] {
            Value::String(t) => {
                let o = parse(t);
                let ghost og = o;
                assert(parse.ensures((&params@[0]->String_0,), og));
                match o {
                    Some(Value::Object(m)) => Ok(Value::Object(m)),
                    _ => Err(json_access_message()),
                }
            },
            Value::Object(m) => Ok(Value::Object(m.deep_clone())),
            _ => Err(owned("\"obj\" can not convert ")),
        }
    }
}

/// The `obj_contains_key` helper.
#[derive(Debug, Clone, Copy)]
pub struct ObjContainsKeyHelper {}

impl ObjContainsKeyHelper {
    pub fn call(&self, params: &Vec<Value>) -> (r: Result<Value, String>)
        ensures
            outcome(r) == obj_contains_key_helper(view_values(params@)),
    {
        proof {
            lemma_view_values(params@);
            reveal_strlit("obj_contains_key");
        }
        if params.len() < 2 {
            return Err(not_found_message("obj_contains_key"));
        }
        match (&params[0], &params[1]) {
            (Value::Object(m), Value::String(k)) => Ok(Value::Bool(m.contains_key(k.as_str()))),
            _ => Err(invalid_message("obj_contains_key")),
        }
    }
}

/// Whether `x` is an object that holds `y`, a text, as a key.
pub fn obj_contains_key(x: &Value, y: &Value) -> (b: bool)
    ensures
        b == (x@ matches JVal::Obj(m) && y@ matches JVal::Str(k) && lookup(m, k) is Some),
{
    match (x, y) {
        (Value::Object(m), Value::String(k)) => m.contains_key(k.as_str()),
        _ => false,
    }
}

} // verus!
