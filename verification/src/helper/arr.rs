//! The array helpers: `arr`, `arr_sub`, `arr_len` and `arr_get`.
//!
//! A number that stands for a position is turned into one by the caller's
//! function `idx`, as a floating-point number cast to `usize`.
use vstd::prelude::*;

use crate::helper::{invalid, invalid_message, json_access, json_access_message, not_found, not_found_message, outcome};
use crate::text::owned;
use crate::value::{json_eq, lemma_view_values, values_equal, view_values, JNum, JVal, Number, Value};

verus! {

/// What `arr` gives for its parameters `ps`, with `parse` reading a text as
/// JSON: the result `r` is one that they allow. A text must read as an
/// array; an array is given back; anything else is refused.
pub open spec fn arr_outcome<P: Fn(&String) -> Option<Value>>(
    ps: Seq<Value>,
    parse: P,
    r: Result<Value, String>,
) -> bool {
    if ps.len() == 0 {
        outcome(r) == Err::<JVal, Seq<char>>(not_found("arr"@))
    } else {
        match ps[0] {
            Value::String(t) => exists|o: Option<Value>|
                #[trigger] parse.ensures((&t,), o) && match o {
                    Some(Value::Array(a)) => outcome(r) == Ok::<JVal, Seq<char>>(JVal::Arr(view_values(a@))),
                    _ => outcome(r) == Err::<JVal, Seq<char>>(json_access()),
                },
            Value::Array(a) => outcome(r) == Ok::<JVal, Seq<char>>(JVal::Arr(view_values(a@))),
            _ => outcome(r) == Err::<JVal, Seq<char>>("\"arr\" can not convert "@),
        }
    }
}

/// Whether `arr_sub` accepts its parameters: there is a first one, and
/// where it is an array, the part asked for is empty and ends within it.
pub open spec fn sub_accepts<F: Fn(&Number) -> usize>(ps: Seq<Value>, idx: F) -> bool {
    &&& ps.len() >= 1
    &&& match ps[0] {
        Value::Array(a) => {
            &&& ps.len() == 2 && ps[1] is Number ==> forall|i: usize|
                #[trigger] idx.ensures((&ps[1]->Number_0,), i) ==> i == a.len()
            &&& ps.len() == 3 && ps[1] is Number && ps[2] is Number ==> forall|i: usize, j: usize|
                #[trigger] idx.ensures((&ps[1]->Number_0,), i) && #[trigger] idx.ensures((&ps[2]->Number_0,), j)
                    ==> i == j && j <= a.len()
        },
        _ => true,
    }
}

/// `arr_sub`: the part of the array that it accepts is empty.
pub open spec fn sub_helper(ps: Seq<JVal>) -> Result<JVal, Seq<char>> {
    if !(ps[0] is Arr) {
        Err(invalid("arr_sub"@))
    } else if ps.len() == 2 && ps[1] is Num {
        Ok(JVal::Arr(Seq::empty()))
    } else if ps.len() == 3 && ps[1] is Num && ps[2] is Num {
        Ok(JVal::Arr(Seq::empty()))
    } else {
        Err(invalid("arr_sub"@))
    }
}

/// `arr_len`: the length of the first parameter, an array.
pub open spec fn len_helper(ps: Seq<JVal>) -> Result<JVal, Seq<char>> {
    match ps[0] {
        JVal::Arr(a) => Ok(JVal::Num(JNum::PosInt(a.len() as u64))),
        _ => Err(invalid("arr_len"@)),
    }
}

/// Whether `arr_get` accepts its parameters: there is a first one, and
/// where it is a non-empty array and the second is a number, the position
/// lies within it (or, where `empty_null` does not hold, also where the
/// array is empty).
pub open spec fn get_accepts<F: Fn(&Number) -> usize>(ps: Seq<Value>, idx: F, empty_null: bool) -> bool {
    &&& ps.len() >= 1
    &&& match ps[0] {
        Value::Array(a) => ps.len() == 2 && ps[1] is Number && (a.len() > 0 || !empty_null) ==> forall|i: usize|
            #[trigger] idx.ensures((&ps[1]->Number_0,), i) ==> i < a.len(),
        _ => true,
    }
}

/// What `arr_get` gives: the element at the position that `idx` gives for
/// the second parameter; `Null` for an empty array where `empty_null` holds.
pub open spec fn get_outcome<F: Fn(&Number) -> usize>(
    ps: Seq<Value>,
    idx: F,
    empty_null: bool,
    r: Result<Value, String>,
) -> bool {
    match ps[0] {
        Value::Array(a) => if ps.len() == 2 && ps[1] is Number {
            if a.len() == 0 && empty_null {
                outcome(r) == Ok::<JVal, Seq<char>>(JVal::Null)
            } else {
                exists|i: usize|
                    #[trigger] idx.ensures((&ps[1]->Number_0,), i) && i < a.len() && outcome(r) == Ok::<
                        JVal,
                        Seq<char>,
                    >(a@[i as int]@)
            }
        } else {
            outcome(r) == Err::<JVal, Seq<char>>(invalid("arr_get"@))
        },
        _ => outcome(r) == Err::<JVal, Seq<char>>(invalid("arr_get"@)),
    }
}

/// A copy of a list of values.
pub fn clone_values(a: &Vec<Value>) -> (r: Vec<Value>)
    ensures
        view_values(r@) == view_values(a@),
{
    let n = a.len();
    let mut out: Vec<Value> = Vec::new();
    for i in 0..n
        invariant
            n == a@.len(),
            out@.len() == i,
            view_values(out@) == view_values(a@.take(i as int)),
    {
        let x = a[i].deep_clone();
        let ghost before = out@;
        out.push(x);
        proof {
            assert(out@.drop_last() == before);
            assert(a@.take(i + 1).drop_last() == a@.take(i as int));
        }
    }
    assert(a@.take(n as int) == a@);
    out
}

/// `arr_sub` over the parameters that it accepts.
pub fn arr_sub<F: Fn(&Number) -> usize>(params: &Vec<Value>, idx: &F) -> (r: Result<Value, String>)
    requires
        sub_accepts(params@, *idx),
        forall|n: &Number| idx.requires((n,)),
    ensures
        outcome(r) == sub_helper(view_values(params@)),
{
    proof {
        lemma_view_values(params@);
        reveal_strlit("arr_sub");
    }
    let arr = match &params[0] {
        Value::Array(a) => a,
        _ => {
            return Err(invalid_message("arr_sub"));
        },
    };
    if params.len() == 2 {
        match &params[1] {
            Value::Number(n) => {
                let start = idx(n);
                assert(start == arr.len());
                Ok(Value::Array(Vec::new()))
            },
            _ => Err(invalid_message("arr_sub")),
        }
    } else if params.len() == 3 {
        match (&params[1], &params[2]) {
            (Value::Number(n1), Value::Number(n2)) => {
                let start = idx(n1);
                let end = idx(n2);
                assert(start == end && end <= arr.len());
                Ok(Value::Array(Vec::new()))
            },
            _ => Err(invalid_message("arr_sub")),
        }
    } else {
        Err(invalid_message("arr_sub"))
    }
}

/// `arr_len` over parameters with a first one.
pub fn arr_len(params: &Vec<Value>) -> (r: Result<Value, String>)
    requires
        params@.len() >= 1,
    ensures
        outcome(r) == len_helper(view_values(params@)),
{
    proof {
        lemma_view_values(params@);
        reveal_strlit("arr_len");
    }
    match &params[0] {
        Value::Array(a) => {
            proof {
                lemma_view_values(a@);
            }
            Ok(Value::Number(Number::PosInt(a.len() as u64)))
        },
        _ => Err(invalid_message("arr_len")),
    }
}

/// `arr_get` over the parameters that it accepts.
pub fn arr_get<F: Fn(&Number) -> usize>(params: &Vec<Value>, idx: &F, empty_null: bool) -> (r: Result<Value, String>)
    requires
        get_accepts(params@, *idx, empty_null),
        forall|n: &Number| idx.requires((n,)),
    ensures
        get_outcome(params@, *idx, empty_null, r),
{
    proof {
        reveal_strlit("arr_get");
    }
    match &params[0] {
        Value::Array(a) => {
            if params.len() == 2 {
                match &params[1] {
                    Value::Number(n) => {
                        if a.len() == 0 && empty_null {
                            return Ok(Value::Null);
                        }
                        let i = idx(n);
                        assert(i < a.len());
                        let res: Result<Value, String> = Ok(a[i].deep_clone());
                        assert(idx.ensures((&params@[1]->Number_0,), i));
                        res
                    },
                    _ => Err(invalid_message("arr_get")),
                }
            } else {
                Err(invalid_message("arr_get"))
            }
        },
        _ => Err(invalid_message("arr_get")),
    }
}

/// Whether `x` is an array holding a value equal to `y`.
pub open spec fn holds_equal(x: JVal, y: JVal) -> bool {
    match x {
        JVal::Arr(a) => exists|i: int| 0 <= i < a.len() && json_eq(#[trigger] a[i], y),
        _ => false,
    }
}

/// `arr_contains`: whether `x` is an array holding a value equal to `y`.
pub fn arr_contains(x: &Value, y: &Value) -> (b: bool)
    ensures
        b == holds_equal(x@, y@),
{
    match x {
        Value::Array(a) => {
            proof {
                lemma_view_values(a@);
            }
            let n = a.len();
            let mut i: usize = 0;
            while i < n
                invariant
                    n == a@.len(),
                    x@ == JVal::Arr(view_values(a@)),
                    view_values(a@).len() == n,
                    forall|j: int| 0 <= j < n ==> #[trigger] view_values(a@)[j] == a@[j]@,
                    i <= n,
                    forall|j: int| 0 <= j < i ==> !json_eq(#[trigger] view_values(a@)[j], y@),
                decreases n - i,
            {
                if values_equal(&a[i], y) {
                    let ghost va = view_values(a@);
                    assert(json_eq(va[i as int], y@));
                    assert(x@->Arr_0 == va);
                    assert(x@->Arr_0[i as int] == va[i as int]);
                    assert(holds_equal(x@, y@));
                    return true;
                }
                i = i + 1;
            }
            false
        },
        _ => false,
    }
}

/// The `arr` helper.
#[derive(Debug, Clone, Copy)]
pub struct ArrHelper {}

impl ArrHelper {
    pub fn call<P: Fn(&String) -> Option<Value>>(&self, params: &Vec<Value>, parse: &P) -> (r: Result<Value, String>)
        requires
            forall|t: &String| parse.requires((t,)),
        ensures
            arr_outcome(params@, *parse, r),
    {
        proof {
            reveal_strlit("arr");
        }
        if params.len() == 0 {
            return Err(not_found_message("arr"));
        }
        match &params[0] {
            Value::String(t) => {
                let o = parse(t);
                let ghost og = o;
                assert(parse.ensures((&params@[0]->String_0,), og));
                match o {
                    Some(Value::Array(a)) => Ok(Value::Array(a)),
                    _ => Err(json_access_message()),
                }
            },
            Value::Array(a) => Ok(Value::Array(clone_values(a))),
            _ => Err(owned("\"arr\" can not convert ")),
        }
    }
}

/// The `arr_sub` helper.
#[derive(Debug, Clone, Copy)]
pub struct SubHelper;

impl SubHelper {
    pub fn call<F: Fn(&Number) -> usize>(&self, params: &Vec<Value>, idx: &F) -> (r: Result<Value, String>)
        requires
            sub_accepts(params@, *idx),
            forall|n: &Number| idx.requires((n,)),
        ensures
            outcome(r) == sub_helper(view_values(params@)),
    {
        arr_sub(params, idx)
    }
}

/// The `arr_len` helper.
#[derive(Debug, Clone, Copy)]
pub struct LenHelper {}

impl LenHelper {
    pub fn call(&self, params: &Vec<Value>) -> (r: Result<Value, String>)
        requires
            params@.len() >= 1,
        ensures
            outcome(r) == len_helper(view_values(params@)),
    {
        arr_len(params)
    }
}

/// The `arr_get` helper: `Null` for an empty array.
#[derive(Debug, Clone, Copy)]
pub struct GetHelper {}

impl GetHelper {
    pub fn call<F: Fn(&Number) -> usize>(&self, params: &Vec<Value>, idx: &F) -> (r: Result<Value, String>)
        requires
            get_accepts(params@, *idx, true),
            forall|n: &Number| idx.requires((n,)),
        ensures
            get_outcome(params@, *idx, true, r),
    {
        arr_get(params, idx, true)
    }
}

} // verus!
