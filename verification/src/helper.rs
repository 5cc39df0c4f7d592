//! Template helpers: what each helper gives for the values of its
//! parameters. A helper's outcome is a value or the message of its error.
//!
//! Where a helper reads a text as JSON or writes a value as JSON text, it
//! is handed that conversion as a function, and its contract says what it
//! does with what the function gives.
use vstd::prelude::*;

use crate::text::{concat3, owned};
use crate::value::{JNum, JVal, Number, Value};

pub mod arr;
pub mod array;
pub mod basic;
pub mod boolean;
pub mod fs;
pub mod json;
pub mod num;
pub mod number;
pub mod obj;
pub mod string;
pub mod text;

verus! {

/// The outcome of a helper, as values.
pub open spec fn outcome(r: Result<Value, String>) -> Result<JVal, Seq<char>> {
    match r {
        Ok(v) => Ok(v@),
        Err(e) => Err(e@),
    }
}

/// The message of a helper called without a parameter it needs.
pub open spec fn not_found(name: Seq<char>) -> Seq<char> {
    "Param not found for helper \""@ + name + "\""@
}

/// The message of a helper called with a parameter it cannot use.
pub open spec fn invalid(name: Seq<char>) -> Seq<char> {
    "Param invalid for helper \""@ + name + "\""@
}

/// The message of a value that cannot be read as what a helper needs.
pub open spec fn json_access() -> Seq<char> {
    "Failed to access JSON data."@
}

/// The message of a helper called without a parameter it needs.
pub fn not_found_message(name: &str) -> (r: String)
    ensures
        r@ == not_found(name@),
{
    concat3("Param not found for helper \"", name, "\"")
}

/// The message of a helper called with a parameter it cannot use.
pub fn invalid_message(name: &str) -> (r: String)
    ensures
        r@ == invalid(name@),
{
    concat3("Param invalid for helper \"", name, "\"")
}

/// The message of a value that cannot be read as what a helper needs.
pub fn json_access_message() -> (r: String)
    ensures
        r@ == json_access(),
{
    owned("Failed to access JSON data.")
}

/// The number whose `as_u64`, `as_i64` and text are `p`: an unsigned one
/// where it has an `as_u64`, else a negative one where it has an `as_i64`,
/// else a floating-point one.
pub open spec fn number_of_parts(p: (Option<u64>, Option<i64>, Seq<char>)) -> JNum {
    match p.0 {
        Some(u) => JNum::PosInt(u),
        None => match p.1 {
            Some(i) => JNum::NegInt(i),
            None => JNum::Float(p.2),
        },
    }
}

/// The number whose `as_u64`, `as_i64` and text are given.
pub fn number_from_parts(u: Option<u64>, i: Option<i64>, t: String) -> (r: Number)
    ensures
        r@ == number_of_parts((u, i, t@)),
{
    match u {
        Some(x) => Number::PosInt(x),
        None => match i {
            Some(y) => Number::NegInt(y),
            None => Number::Float(t),
        },
    }
}

/// What `serde_json::from_str::<serde_json::Number>` gives for a text: the
/// `as_u64`, `as_i64` and text of the number read, or nothing where the
/// text is not a JSON number.
pub uninterp spec fn json_number(text: Seq<char>) -> Option<(Option<u64>, Option<i64>, Seq<char>)>;

/// Reads `text` with `serde_json::from_str::<serde_json::Number>`. What it
/// gives is named by `json_number`; nothing more is claimed of it.
#[verifier::external_body]
pub(crate) fn read_json_number(text: &str) -> (r: Option<(Option<u64>, Option<i64>, String)>)
    ensures
        match r {
            Some(p) => json_number(text@) == Some((p.0, p.1, p.2@)),
            None => json_number(text@) is None,
        },
{
    match serde_json::from_str::<serde_json::Number>(text) {
        Ok(n) => Some((n.as_u64(), n.as_i64(), n.to_string())),
        Err(_) => None,
    }
}

/// What `<serde_json::Number as FromStr>::from_str` gives for a text: the
/// `as_u64`, `as_i64` and text of the number read, or nothing where the
/// text is not a number.
pub uninterp spec fn number_text(text: Seq<char>) -> Option<(Option<u64>, Option<i64>, Seq<char>)>;

/// Reads `text` with `<serde_json::Number as FromStr>::from_str`. What it
/// gives is named by `number_text`; nothing more is claimed of it.
#[verifier::external_body]
pub(crate) fn read_number_text(text: &str) -> (r: Option<(Option<u64>, Option<i64>, String)>)
    ensures
        match r {
            Some(p) => number_text(text@) == Some((p.0, p.1, p.2@)),
            None => number_text(text@) is None,
        },
{
    match <serde_json::Number as std::str::FromStr>::from_str(text) {
        Ok(n) => Some((n.as_u64(), n.as_i64(), n.to_string())),
        Err(_) => None,
    }
}

/// A helper that gives a fixed text.
#[derive(Debug)]
pub struct LiteralHelper {
    literal: String,
}

impl LiteralHelper {
    pub fn new(literal: String) -> (r: LiteralHelper)
        ensures
            r.literal() == literal@,
    {
        LiteralHelper { literal }
    }

    /// The text it gives.
    pub closed spec fn literal(&self) -> Seq<char> {
        self.literal@
    }

    /// Gives its text, whatever the parameters.
    pub fn call(&self) -> (r: Value)
        ensures
            r@ == JVal::Str(self.literal()),
    {
        Value::String(self.literal.clone())
    }
}

/// The helpers that give a literal text, by name: `bl` gives `{` and `br`
/// gives `}`.
pub fn literal_helpers() -> (r: Vec<(String, LiteralHelper)>)
    ensures
        r@.len() == 2,
        r@[0].0@ == "bl"@ && r@[0].1.literal() == "{"@,
        r@[1].0@ == "br"@ && r@[1].1.literal() == "}"@,
{
    let mut v: Vec<(String, LiteralHelper)> = Vec::new();
    v.push((owned("bl"), LiteralHelper::new(owned("{"))));
    v.push((owned("br"), LiteralHelper::new(owned("}"))));
    v
}

} // verus!
