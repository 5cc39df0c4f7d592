//! The text helpers: `str`, `str_sub`, `str_escape`, `str_len`, and the
//! tests `str_contains`, `str_start_with` and `str_end_with`.
//!
//! Positions and lengths of texts are counted in bytes of UTF-8. A number
//! that stands for a position is turned into one by the caller's function
//! `idx`, as a floating-point number cast to `usize`.
use vstd::prelude::*;
use vstd::string::StrSliceExecFns;

use crate::helper::{invalid, invalid_message, not_found, not_found_message, outcome};
use crate::text::{byte_len, char_at_byte, char_index_at_byte, contains, contains_text, ends_with, lemma_byte_len_encoding, lemma_byte_len_strict, owned, starts_with};
use crate::value::{lemma_view_values, view_values, JNum, JVal, Number, Value};

verus! {

/// What `std::str::escape_debug` gives for a text, collected into a string.
pub uninterp spec fn escape_debug_text(s: Seq<char>) -> Seq<char>;

/// `s.escape_debug().to_string()`: the text with each character escaped as
/// `char::escape_debug` does. What it gives is named by
/// `escape_debug_text`; nothing more is claimed of it.
#[verifier::external_body]
pub(crate) fn escape_debug(s: &str) -> (r: String)
    ensures
        r@ == escape_debug_text(s@),
{
    s.escape_debug().to_string()
}

/// What `str` gives for its parameters `ps`, with `show` writing a value as
/// JSON text: the result `r` is one that they allow.
pub open spec fn str_outcome<S: Fn(&Value) -> String>(ps: Seq<Value>, show: S, r: Result<Value, String>) -> bool {
    if ps.len() == 0 {
        outcome(r) == Err::<JVal, Seq<char>>(not_found("str"@))
    } else {
        exists|t: String| #[trigger] show.ensures((&ps[0],), t) && outcome(r) == Ok::<JVal, Seq<char>>(JVal::Str(t@))
    }
}

/// Whether `str_sub` accepts its parameters: there is a first one, and
/// where it is a text, the bounds asked for start characters of it (or
/// end it) and do not cross.
pub open spec fn sub_accepts<F: Fn(&Number) -> usize>(ps: Seq<Value>, idx: F) -> bool {
    &&& ps.len() >= 1
    &&& match ps[0] {
        Value::String(s) => {
            &&& ps.len() == 2 && ps[1] is Number ==> forall|i: usize|
                #[trigger] idx.ensures((&ps[1]->Number_0,), i) ==> char_at_byte(s@, i as int) is Some
            &&& ps.len() == 3 && ps[1] is Number && ps[2] is Number ==> forall|i: usize, j: usize|
                #[trigger] idx.ensures((&ps[1]->Number_0,), i) && #[trigger] idx.ensures((&ps[2]->Number_0,), j)
                    ==> char_at_byte(s@, i as int) is Some && char_at_byte(s@, j as int) is Some && i <= j
        },
        _ => true,
    }
}

/// What `str_sub` gives: the part of the text from the byte that `idx`
/// gives for the second parameter, to the end or to the byte it gives for
/// the third.
pub open spec fn sub_outcome<F: Fn(&Number) -> usize>(ps: Seq<Value>, idx: F, r: Result<Value, String>) -> bool {
    match ps[0] {
        Value::String(s) => if ps.len() == 2 && ps[1] is Number {
            exists|i: usize|
                #[trigger] idx.ensures((&ps[1]->Number_0,), i) && outcome(r) == Ok::<JVal, Seq<char>>(
                    JVal::Str(s@.skip(char_at_byte(s@, i as int)->Some_0)),
                )
        } else if ps.len() == 3 && ps[1] is Number && ps[2] is Number {
            exists|i: usize, j: usize|
                #[trigger] idx.ensures((&ps[1]->Number_0,), i) && #[trigger] idx.ensures((&ps[2]->Number_0,), j)
                    && outcome(r) == Ok::<JVal, Seq<char>>(
                    JVal::Str(s@.subrange(char_at_byte(s@, i as int)->Some_0, char_at_byte(s@, j as int)->Some_0)),
                )
        } else {
            outcome(r) == Err::<JVal, Seq<char>>(invalid("str_sub"@))
        },
        _ => outcome(r) == Err::<JVal, Seq<char>>(invalid("str_sub"@)),
    }
}

/// `str_escape`: the first parameter, a text, escaped.
pub open spec fn escape_helper(ps: Seq<JVal>) -> Result<JVal, Seq<char>> {
    match ps[0] {
        JVal::Str(s) => Ok(JVal::Str(escape_debug_text(s))),
        _ => Err(invalid("str_escape"@)),
    }
}

/// `str_len`: the length in bytes of the first parameter, a text.
pub open spec fn len_helper(ps: Seq<JVal>) -> Result<JVal, Seq<char>> {
    if ps.len() == 0 {
        Err(not_found("str_len"@))
    } else {
        match ps[0] {
            JVal::Str(s) => Ok(JVal::Num(JNum::PosInt(byte_len(s) as usize as u64))),
            _ => Err(invalid("str_len"@)),
        }
    }
}

/// `str` over its parameters; see `str_outcome`.
pub fn str_of<S: Fn(&Value) -> String>(params: &Vec<Value>, show: &S) -> (r: Result<Value, String>)
    requires
        forall|v: &Value| show.requires((v,)),
    ensures
        str_outcome(params@, *show, r),
{
    proof {
        reveal_strlit("str");
    }
    if params.len() == 0 {
        return Err(not_found_message("str"));
    }
    let t = show(&params[0]);
    let ghost tg = t;
    let res: Result<Value, String> = Ok(Value::String(t));
    assert(show.ensures((&params@[0],), tg));
    res
}

/// `str_sub` over the parameters that it accepts; see `sub_outcome`.
pub fn str_sub<F: Fn(&Number) -> usize>(params: &Vec<Value>, idx: &F) -> (r: Result<Value, String>)
    requires
        sub_accepts(params@, *idx),
        forall|n: &Number| idx.requires((n,)),
    ensures
        sub_outcome(params@, *idx, r),
{
    proof {
        reveal_strlit("str_sub");
    }
    let s = match &params[0] {
        Value::String(s) => s,
        _ => {
            return Err(invalid_message("str_sub"));
        },
    };
    if params.len() == 2 {
        match &params[1] {
            Value::Number(n) => {
                let start = idx(n);
                let k = char_index_at_byte(s.as_str(), start).unwrap();
                let len = s.as_str().unicode_len();
                let res: Result<Value, String> = Ok(Value::String(owned(s.as_str().substring_char(k, len))));
                assert(idx.ensures((&params@[1]->Number_0,), start));
                assert(s@.subrange(k as int, len as int) == s@.skip(k as int));
                res
            },
            _ => Err(invalid_message("str_sub")),
        }
    } else if params.len() == 3 {
        match (&params[1], &params[2]) {
            (Value::Number(n1), Value::Number(n2)) => {
                let start = idx(n1);
                let end = idx(n2);
                let k1 = char_index_at_byte(s.as_str(), start).unwrap();
                let k2 = char_index_at_byte(s.as_str(), end).unwrap();
                proof {
                    let c1 = choose|k: int| 0 <= k <= s@.len() && #[trigger] byte_len(s@.take(k)) == start;
                    let c2 = choose|k: int| 0 <= k <= s@.len() && #[trigger] byte_len(s@.take(k)) == end;
                    if k2 < k1 {
                        lemma_byte_len_strict(s@, c2, c1);
                    }
                }
                let res: Result<Value, String> = Ok(Value::String(owned(s.as_str().substring_char(k1, k2))));
                assert(idx.ensures((&params@[1]->Number_0,), start));
                assert(idx.ensures((&params@[2]->Number_0,), end));
                res
            },
            _ => Err(invalid_message("str_sub")),
        }
    } else {
        Err(invalid_message("str_sub"))
    }
}

/// `str_escape` over parameters with a first one.
pub fn str_escape(params: &Vec<Value>) -> (r: Result<Value, String>)
    requires
        params@.len() >= 1,
    ensures
        outcome(r) == escape_helper(view_values(params@)),
{
    proof {
        lemma_view_values(params@);
        reveal_strlit("str_escape");
    }
    match &params[0] {
        Value::String(s) => Ok(Value::String(escape_debug(s.as_str()))),
        _ => Err(invalid_message("str_escape")),
    }
}

/// `str_len` over its parameters.
pub fn str_len(params: &Vec<Value>) -> (r: Result<Value, String>)
    ensures
        outcome(r) == len_helper(view_values(params@)),
{
    proof {
        lemma_view_values(params@);
        reveal_strlit("str_len");
    }
    if params.len() == 0 {
        return Err(not_found_message("str_len"));
    }
    match &params[0] {
        Value::String(s) => {
            let n = s.as_str().len();
            proof {
                lemma_byte_len_encoding(s@);
            }
            Ok(Value::Number(Number::PosInt(n as u64)))
        },
        _ => Err(invalid_message("str_len")),
    }
}

/// `str_contains`: whether `x` and `y` are texts and `y` occurs in `x`.
pub fn str_contains(x: &Value, y: &Value) -> (b: bool)
    ensures
        b == (x@ matches JVal::Str(s) && y@ matches JVal::Str(p) && contains_text(s, p)),
{
    match (x, y) {
        (Value::String(s), Value::String(p)) => contains(s.as_str(), p.as_str()),
        _ => false,
    }
}

/// `str_start_with`: whether `x` and `y` are texts and `x` starts with `y`.
pub fn str_start_with(x: &Value, y: &Value) -> (b: bool)
    ensures
        b == (x@ matches JVal::Str(s) && y@ matches JVal::Str(p) && p.is_prefix_of(s)),
{
    match (x, y) {
        (Value::String(s), Value::String(p)) => starts_with(s.as_str(), p.as_str()),
        _ => false,
    }
}

/// `str_end_with`: whether `x` and `y` are texts and `x` ends with `y`.
pub fn str_end_with(x: &Value, y: &Value) -> (b: bool)
    ensures
        b == (x@ matches JVal::Str(s) && y@ matches JVal::Str(p) && p.is_suffix_of(s)),
{
    match (x, y) {
        (Value::String(s), Value::String(p)) => ends_with(s.as_str(), p.as_str()),
        _ => false,
    }
}

/// The `str` helper.
#[derive(Debug, Clone, Copy)]
pub struct StrHelper;

impl StrHelper {
    pub fn call<S: Fn(&Value) -> String>(&self, params: &Vec<Value>, show: &S) -> (r: Result<Value, String>)
        requires
            forall|v: &Value| show.requires((v,)),
        ensures
            str_outcome(params@, *show, r),
    {
        str_of(params, show)
    }
}

/// The `str_sub` helper.
#[derive(Debug, Clone, Copy)]
pub struct SubHelper;

impl SubHelper {
    pub fn call<F: Fn(&Number) -> usize>(&self, params: &Vec<Value>, idx: &F) -> (r: Result<Value, String>)
        requires
            sub_accepts(params@, *idx),
            forall|n: &Number| idx.requires((n,)),
        ensures
            sub_outcome(params@, *idx, r),
    {
        str_sub(params, idx)
    }
}

/// The `str_escape` helper.
#[derive(Debug, Clone, Copy)]
pub struct EscapeHelper;

impl EscapeHelper {
    pub fn call(&self, params: &Vec<Value>) -> (r: Result<Value, String>)
        requires
            params@.len() >= 1,
        ensures
            outcome(r) == escape_helper(view_values(params@)),
    {
        str_escape(params)
    }
}

/// The `str_len` helper.
#[derive(Debug, Clone, Copy)]
pub struct LenHelper {}

impl LenHelper {
    pub fn call(&self, params: &Vec<Value>) -> (r: Result<Value, String>)
        ensures
            outcome(r) == len_helper(view_values(params@)),
    {
        str_len(params)
    }
}

} // verus!
