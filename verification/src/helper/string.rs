//! The text helpers of the second set: those of the first, and
//! `str_unescape`.
use vstd::prelude::*;

use crate::helper::text::{escape_helper, len_helper, str_escape, str_len, str_of, str_outcome, str_sub, sub_accepts, sub_outcome};
use crate::helper::{invalid, invalid_message, outcome};
use crate::value::{lemma_view_values, view_values, JVal, Number, Value};

verus! {

/// What `snailquote::unescape` gives for a text: the text it stands for,
/// or nothing where it is not a valid quoted or unquoted text.
pub uninterp spec fn unescape_text(s: Seq<char>) -> Option<Seq<char>>;

/// `snailquote::unescape`: the text that `s` stands for, with its quotes
/// and escapes resolved. What it gives is named by `unescape_text`; nothing
/// more is claimed of it.
#[verifier::external_body]
pub(crate) fn unescape(s: &str) -> (r: Option<String>)
    ensures
        match r {
            Some(t) => unescape_text(s@) == Some(t@),
            None => unescape_text(s@) is None,
        },
{
    snailquote::unescape(s).ok()
}

/// `str_unescape`: the text that the first parameter, a text, stands for.
pub open spec fn unescape_helper(ps: Seq<JVal>) -> Result<JVal, Seq<char>> {
    match ps[0] {
        JVal::Str(s) => match unescape_text(s) {
            Some(t) => Ok(JVal::Str(t)),
            None => Err(invalid("str_unescape"@)),
        },
        _ => Err(invalid("str_unescape"@)),
    }
}

/// The `str` helper.
#[derive(Debug, Clone, Copy)]
pub struct StrHelper;

impl StrHelper {
    pub fn call<S: Fn(&Value) -> String>(&self, params: &Vec<Value>, show: &S) -> (r: Result<Value, String>)
        requires
            forall|v: &Value| show.requires((v,)),
        ensures
            str_outcome(params@, *show, r),
    {
        str_of(params, show)
    }
}

/// The `str_sub` helper.
#[derive(Debug, Clone, Copy)]
pub struct SubHelper;

impl SubHelper {
    pub fn call<F: Fn(&Number) -> usize>(&self, params: &Vec<Value>, idx: &F) -> (r: Result<Value, String>)
        requires
            sub_accepts(params@, *idx),
            forall|n: &Number| idx.requires((n,)),
        ensures
            sub_outcome(params@, *idx, r),
    {
        str_sub(params, idx)
    }
}

/// The `str_escape` helper.
#[derive(Debug, Clone, Copy)]
pub struct EscapeHelper;

impl EscapeHelper {
    pub fn call(&self, params: &Vec<Value>) -> (r: Result<Value, String>)
        requires
            params@.len() >= 1,
        ensures
            outcome(r) == escape_helper(view_values(params@)),
    {
        str_escape(params)
    }
}

/// The `str_unescape` helper.
#[derive(Debug, Clone, Copy)]
pub struct UnescapeHelper;

impl UnescapeHelper {
    pub fn call(&self, params: &Vec<Value>) -> (r: Result<Value, String>)
        requires
            params@.len() >= 1,
        ensures
            outcome(r) == unescape_helper(view_values(params@)),
    {
        proof {
            lemma_view_values(params@);
            reveal_strlit("str_unescape");
        }
        match &params[0] {
            Value::String(s) => match unescape(s.as_str()) {
                Some(t) => Ok(Value::String(t)),
                None => Err(invalid_message("str_unescape")),
            },
            _ => Err(invalid_message("str_unescape")),
        }
    }
}

/// The `str_len` helper.
#[derive(Debug, Clone, Copy)]
pub struct LenHelper {}

impl LenHelper {
    pub fn call(&self, params: &Vec<Value>) -> (r: Result<Value, String>)
        ensures
            outcome(r) == len_helper(view_values(params@)),
    {
        str_len(params)
    }
}

} // verus!
