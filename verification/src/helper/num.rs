//! The number helpers: `num` and the four operations `num_add`,
//! `num_sub`, `num_mul` and `num_div`.
//!
//! An operation on two integers is computed here; one on a floating-point
//! number is handed to the caller's function, and a result that is not a
//! finite number is an error.
use vstd::prelude::*;

use crate::helper::{json_access, json_access_message, json_number, not_found, not_found_message, number_from_parts, number_of_parts, outcome, read_json_number};
use crate::text::{concat, concat3, owned, trim, trim_text};
use crate::value::{lemma_view_values, view_values, JNum, JVal, Number, Value};

verus! {

/// `num`: a text is read as a JSON number once trimmed; a number is given
/// back; anything else is refused.
pub open spec fn num_helper(ps: Seq<JVal>) -> Result<JVal, Seq<char>> {
    if ps.len() == 0 {
        Err(not_found("num"@))
    } else {
        match ps[0] {
            JVal::Str(x) => match json_number(trim_text(x)) {
                Some(p) => Ok(JVal::Num(number_of_parts(p))),
                None => Err(json_access()),
            },
            JVal::Num(n) => Ok(JVal::Num(n)),
            _ => Err("\"num\" can not convert "@),
        }
    }
}

/// An operation of the number helpers.
#[derive(Debug, Clone, Copy, PartialEq, Eq, Structural)]
pub enum ArithOp {
    Add,
    Sub,
    Mul,
    Div,
}

/// The name of the helper of an operation, as its messages give it.
pub open spec fn op_name(op: ArithOp) -> Seq<char> {
    match op {
        ArithOp::Add => "num_add"@,
        ArithOp::Sub => "num_sub"@,
        ArithOp::Mul => "num_mul"@,
        ArithOp::Div => "num_dib"@,
    }
}

/// Division that rounds toward zero.
pub open spec fn trunc_div(a: int, b: int) -> int {
    if a >= 0 && b > 0 {
        a / b
    } else if a < 0 && b < 0 {
        (-a) / (-b)
    } else if a < 0 {
        -((-a) / b)
    } else {
        -(a / (-b))
    }
}

/// The integer result of an operation.
pub open spec fn int_result(op: ArithOp, a: int, b: int) -> int {
    match op {
        ArithOp::Add => a + b,
        ArithOp::Sub => a - b,
        ArithOp::Mul => a * b,
        ArithOp::Div => trunc_div(a, b),
    }
}

/// The number as an `i64`, where it is an integer in range.
pub open spec fn jnum_i64(n: JNum) -> Option<i64> {
    match n {
        JNum::PosInt(u) => if u <= i64::MAX {
            Some(u as i64)
        } else {
            None
        },
        JNum::NegInt(i) => Some(i),
        JNum::Float(_) => None,
    }
}

/// The number holding an integer: a negative one as such, any other as a
/// non-negative integer.
pub open spec fn jnum_of_int(n: int) -> JNum {
    if n < 0 {
        JNum::NegInt(n as i64)
    } else {
        JNum::PosInt(n as u64)
    }
}

/// Whether an operation accepts its two parameters: where both are
/// integers, each must fit in an `i64`, a divisor must not be zero, and the
/// result must fit in an `i64`.
pub open spec fn arith_accepts(op: ArithOp, ps: Seq<JVal>) -> bool {
    ps.len() >= 2 && ps[0] is Num && ps[1] is Num && !(ps[0]->Num_0 is Float) && !(
    ps[1]->Num_0 is Float) ==> {
        let a = jnum_i64(ps[0]->Num_0);
        let b = jnum_i64(ps[1]->Num_0);
        &&& a is Some
        &&& b is Some
        &&& (op == ArithOp::Div ==> b->Some_0 != 0)
        &&& i64::MIN <= int_result(op, a->Some_0 as int, b->Some_0 as int) <= i64::MAX
    }
}

/// What an operation gives for its parameters `ps`, with `show` writing a
/// value as text for a message and `float_op` computing on floating-point
/// numbers: the result `r` is one that they allow.
pub open spec fn arith_outcome<S: Fn(&Value) -> String, F: Fn(ArithOp, &Number, &Number) -> Option<Number>>(
    op: ArithOp,
    ps: Seq<Value>,
    show: S,
    float_op: F,
    r: Result<Value, String>,
) -> bool {
    if ps.len() < 2 {
        outcome(r) == Err::<JVal, Seq<char>>(not_found(op_name(op)))
    } else if !(ps[0] is Number) || !(ps[1] is Number) {
        exists|s1: String, s2: String|
            #[trigger] show.ensures((&ps[0],), s1) && #[trigger] show.ensures((&ps[1],), s2)
                && outcome(r) == Err::<JVal, Seq<char>>(op_name(op) + " can not apply "@ + s1@ + " "@ + s2@)
    } else if ps[0]->Number_0 is Float || ps[1]->Number_0 is Float {
        exists|o: Option<Number>|
            #[trigger] float_op.ensures((op, &ps[0]->Number_0, &ps[1]->Number_0), o) && match o {
                Some(n) => outcome(r) == Ok::<JVal, Seq<char>>(JVal::Num(n@)),
                None => outcome(r) == Err::<JVal, Seq<char>>("Return NaN for helper \""@ + op_name(op) + "\""@),
            }
    } else {
        let a = jnum_i64(ps[0]->Number_0@)->Some_0;
        let b = jnum_i64(ps[1]->Number_0@)->Some_0;
        outcome(r) == Ok::<JVal, Seq<char>>(JVal::Num(jnum_of_int(int_result(op, a as int, b as int))))
    }
}

/// Whether a number is written as a JSON reader writes an integer: a
/// negative one as such, any other as a non-negative one.
pub open spec fn canonical_int(n: JNum) -> bool {
    match n {
        JNum::PosInt(_) => true,
        JNum::NegInt(i) => i < 0,
        JNum::Float(_) => false,
    }
}

/// `num_sub` undoes `num_add`: where adding two integers gives a number,
/// subtracting the second from it gives back the first.
pub proof fn law_sub_undoes_add<S: Fn(&Value) -> String, F: Fn(ArithOp, &Number, &Number) -> Option<Number>>(
    ps: Seq<Value>,
    qs: Seq<Value>,
    show: S,
    float_op: F,
    r1: Result<Value, String>,
    r2: Result<Value, String>,
)
    requires
        ps.len() == 2,
        ps[0] is Number && canonical_int(ps[0]->Number_0@),
        ps[1] is Number && canonical_int(ps[1]->Number_0@),
        arith_accepts(ArithOp::Add, view_values(ps)),
        arith_outcome(ArithOp::Add, ps, show, float_op, r1),
        qs.len() == 2,
        r1 matches Ok(v) && qs[0]@ == v@,
        qs[1] == ps[1],
        arith_accepts(ArithOp::Sub, view_values(qs)),
        arith_outcome(ArithOp::Sub, qs, show, float_op, r2),
    ensures
        r2 matches Ok(w) && w@ == ps[0]@,
{
    lemma_view_values(ps);
    lemma_view_values(qs);
    let a = jnum_i64(ps[0]->Number_0@);
    let b = jnum_i64(ps[1]->Number_0@);
    assert(a is Some && b is Some);
    let z = a->Some_0 + b->Some_0;
    assert(qs[0]@ == JVal::Num(jnum_of_int(z)));
    assert(qs[0] is Number);
    assert(jnum_i64(qs[0]->Number_0@) == Some(z as i64));
}

/// The integer a number holds, where it is an integer.
pub open spec fn int_value(n: JNum) -> Option<int> {
    match n {
        JNum::PosInt(u) => Some(u as int),
        JNum::NegInt(i) => Some(i as int),
        JNum::Float(_) => None,
    }
}

/// Dividing `a` by `b` with rounding toward zero leaves a remainder
/// smaller than the divisor and of the sign of the dividend.
proof fn lemma_trunc_div(a: int, b: int)
    requires
        b != 0,
    ensures
        ({
            let q = trunc_div(a, b);
            let rem = a - q * b;
            &&& rem < if b > 0 { b } else { -b }
            &&& rem > if b > 0 { -b } else { b }
            &&& a >= 0 ==> rem >= 0
            &&& a <= 0 ==> rem <= 0
        }),
{
    if a >= 0 && b > 0 {
        assert(0 <= a - (a / b) * b < b) by (nonlinear_arith)
            requires
                a >= 0,
                b > 0,
        ;
    } else if a < 0 && b < 0 {
        assert(0 <= (-a) - ((-a) / (-b)) * (-b) < -b) by (nonlinear_arith)
            requires
                a < 0,
                b < 0,
        ;
        assert(a - ((-a) / (-b)) * b == -((-a) - ((-a) / (-b)) * (-b))) by (nonlinear_arith);
    } else if a < 0 {
        assert(0 <= (-a) - ((-a) / b) * b < b) by (nonlinear_arith)
            requires
                a < 0,
                b > 0,
        ;
        assert(a - (-((-a) / b)) * b == -((-a) - ((-a) / b) * b)) by (nonlinear_arith);
    } else {
        assert(0 <= a - (a / (-b)) * (-b) < -b) by (nonlinear_arith)
            requires
                a >= 0,
                b < 0,
        ;
        assert(a - (-(a / (-b))) * b == a - (a / (-b)) * (-b)) by (nonlinear_arith);
    }
}

/// `num_div` on two integers divides with rounding toward zero: where
/// `a` is divided by `b`, the quotient `q` leaves a remainder `a - q * b`
/// smaller in size than `b` and of the sign of `a`, or zero.
pub proof fn law_div_rounds_toward_zero<S: Fn(&Value) -> String, F: Fn(ArithOp, &Number, &Number) -> Option<Number>>(
    ps: Seq<Value>,
    show: S,
    float_op: F,
    r: Result<Value, String>,
)
    requires
        ps.len() >= 2,
        ps[0] is Number && int_value(ps[0]->Number_0@) is Some,
        ps[1] is Number && int_value(ps[1]->Number_0@) is Some,
        arith_accepts(ArithOp::Div, view_values(ps)),
        arith_outcome(ArithOp::Div, ps, show, float_op, r),
    ensures
        ({
            let a = int_value(ps[0]->Number_0@)->Some_0;
            let b = int_value(ps[1]->Number_0@)->Some_0;
            r matches Ok(v) && v matches Value::Number(n) && int_value(n@) matches Some(q) && {
                let rem = a - q * b;
                &&& b != 0
                &&& rem < if b > 0 { b } else { -b }
                &&& rem > if b > 0 { -b } else { b }
                &&& a >= 0 ==> rem >= 0
                &&& a <= 0 ==> rem <= 0
            }
        }),
{
    lemma_view_values(ps);
    assert(view_values(ps)[0] == ps[0]@);
    assert(view_values(ps)[1] == ps[1]@);
    let a = jnum_i64(ps[0]->Number_0@)->Some_0;
    let b = jnum_i64(ps[1]->Number_0@)->Some_0;
    assert(int_value(ps[0]->Number_0@) == Some(a as int));
    assert(int_value(ps[1]->Number_0@) == Some(b as int));
    let q = trunc_div(a as int, b as int);
    lemma_trunc_div(a as int, b as int);
    let v = r->Ok_0;
    assert(v@ == JVal::Num(jnum_of_int(q)));
    assert(v is Number);
    assert(int_value(v->Number_0@) == Some(q));
}

/// The name of the helper of an operation.
pub fn op_name_of(op: ArithOp) -> (r: &'static str)
    ensures
        r@ == op_name(op),
{
    match op {
        ArithOp::Add => "num_add",
        ArithOp::Sub => "num_sub",
        ArithOp::Mul => "num_mul",
        ArithOp::Div => "num_dib",
    }
}

/// The magnitude of an `i64`.
fn magnitude(a: i64) -> (r: u64)
    ensures
        r as int == if a < 0 { -(a as int) } else { a as int },
{
    if a >= 0 {
        a as u64
    } else {
        ((-(a + 1)) as u64) + 1
    }
}

/// `a` divided by `b`, rounded toward zero.
fn int_div(a: i64, b: i64) -> (r: i64)
    requires
        b != 0,
        i64::MIN <= trunc_div(a as int, b as int) <= i64::MAX,
    ensures
        r as int == trunc_div(a as int, b as int),
{
    let ua = magnitude(a);
    let ub = magnitude(b);
    let q = ua / ub;
    if (a < 0) == (b < 0) {
        q as i64
    } else if q == 9223372036854775808u64 {
        -9223372036854775807i64 - 1
    } else {
        -(q as i64)
    }
}

/// The integer result of an operation, which fits in an `i64`.
pub fn int_op(op: ArithOp, a: i64, b: i64) -> (r: i64)
    requires
        op == ArithOp::Div ==> b != 0,
        i64::MIN <= int_result(op, a as int, b as int) <= i64::MAX,
    ensures
        r as int == int_result(op, a as int, b as int),
{
    match op {
        ArithOp::Add => a + b,
        ArithOp::Sub => a - b,
        ArithOp::Mul => a * b,
        ArithOp::Div => int_div(a, b),
    }
}

/// Applies an operation to the first two parameters; see `arith_outcome`.
pub fn arith<S: Fn(&Value) -> String, F: Fn(ArithOp, &Number, &Number) -> Option<Number>>(
    op: ArithOp,
    params: &Vec<Value>,
    show: &S,
    float_op: &F,
) -> (r: Result<Value, String>)
    requires
        arith_accepts(op, view_values(params@)),
        forall|v: &Value| show.requires((v,)),
        forall|a: &Number, b: &Number| float_op.requires((op, a, b)),
    ensures
        arith_outcome(op, params@, *show, *float_op, r),
{
    proof {
        lemma_view_values(params@);
    }
    let name = op_name_of(op);
    if params.len() < 2 {
        return Err(not_found_message(name));
    }
    let p1 = &params[0];
    let p2 = &params[1];
    match (p1, p2) {
        (Value::Number(n1), Value::Number(n2)) => {
            if n1.is_f64() || n2.is_f64() {
                let o = float_op(op, n1, n2);
                let ghost og = o;
                match o {
                    Some(n) => {
                        let res: Result<Value, String> = Ok(Value::Number(n));
                        assert(float_op.ensures((op, &params@[0]->Number_0, &params@[1]->Number_0), og));
                        res
                    },
                    None => {
                        let res: Result<Value, String> = Err(concat3("Return NaN for helper \"", name, "\""));
                        assert(float_op.ensures((op, &params@[0]->Number_0, &params@[1]->Number_0), og));
                        res
                    },
                }
            } else {
                let a = n1.as_i64().unwrap();
                let b = n2.as_i64().unwrap();
                let c = int_op(op, a, b);
                Ok(Value::Number(Number::from_i64(c)))
            }
        },
        _ => {
            let s1 = show(p1);
            let s2 = show(p2);
            let ghost g1 = s1;
            let ghost g2 = s2;
            let head = concat(name, " can not apply ");
            let tail = concat3(s1.as_str(), " ", s2.as_str());
            let res: Result<Value, String> = Err(concat(head.as_str(), tail.as_str()));
            assert(show.ensures((&params@[0],), g1) && show.ensures((&params@[1],), g2));
            assert(res->Err_0@ =~= op_name(op) + " can not apply "@ + g1@ + " "@ + g2@);
            res
        },
    }
}

/// The `num` helper.
#[derive(Debug, Clone, Copy)]
pub struct NumHelper;

impl NumHelper {
    pub fn call(&self, params: &Vec<Value>) -> (r: Result<Value, String>)
        ensures
            outcome(r) == num_helper(view_values(params@)),
    {
        proof {
            lemma_view_values(params@);
            reveal_strlit("num");
        }
        if params.len() == 0 {
            return Err(not_found_message("num"));
        }
        match &params[0] {
            Value::String(x) => {
                let t = trim(x.as_str());
                match read_json_number(t.as_str()) {
                    Some((u, i, s)) => Ok(Value::Number(number_from_parts(u, i, s))),
                    None => Err(json_access_message()),
                }
            },
            Value::Number(n) => Ok(Value::Number(n.copy())),
            _ => Err(owned("\"num\" can not convert ")),
        }
    }
}

/// The `num_add` helper.
#[derive(Debug, Clone, Copy)]
pub struct AddHelper;

impl AddHelper {
    pub fn call<S: Fn(&Value) -> String, F: Fn(ArithOp, &Number, &Number) -> Option<Number>>(
        &self,
        params: &Vec<Value>,
        show: &S,
        float_op: &F,
    ) -> (r: Result<Value, String>)
        requires
            arith_accepts(ArithOp::Add, view_values(params@)),
            forall|v: &Value| show.requires((v,)),
            forall|a: &Number, b: &Number| float_op.requires((ArithOp::Add, a, b)),
        ensures
            arith_outcome(ArithOp::Add, params@, *show, *float_op, r),
    {
        arith(ArithOp::Add, params, show, float_op)
    }
}

/// The `num_sub` helper.
#[derive(Debug, Clone, Copy)]
pub struct SubHelper;

impl SubHelper {
    pub fn call<S: Fn(&Value) -> String, F: Fn(ArithOp, &Number, &Number) -> Option<Number>>(
        &self,
        params: &Vec<Value>,
        show: &S,
        float_op: &F,
    ) -> (r: Result<Value, String>)
        requires
            arith_accepts(ArithOp::Sub, view_values(params@)),
            forall|v: &Value| show.requires((v,)),
            forall|a: &Number, b: &Number| float_op.requires((ArithOp::Sub, a, b)),
        ensures
            arith_outcome(ArithOp::Sub, params@, *show, *float_op, r),
    {
        arith(ArithOp::Sub, params, show, float_op)
    }
}

/// The `num_mul` helper.
#[derive(Debug, Clone, Copy)]
pub struct MulHelper;

impl MulHelper {
    pub fn call<S: Fn(&Value) -> String, F: Fn(ArithOp, &Number, &Number) -> Option<Number>>(
        &self,
        params: &Vec<Value>,
        show: &S,
        float_op: &F,
    ) -> (r: Result<Value, String>)
        requires
            arith_accepts(ArithOp::Mul, view_values(params@)),
            forall|v: &Value| show.requires((v,)),
            forall|a: &Number, b: &Number| float_op.requires((ArithOp::Mul, a, b)),
        ensures
            arith_outcome(ArithOp::Mul, params@, *show, *float_op, r),
    {
        arith(ArithOp::Mul, params, show, float_op)
    }
}

/// The `num_div` helper.
#[derive(Debug, Clone, Copy)]
pub struct DivHelper;

impl DivHelper {
    pub fn call<S: Fn(&Value) -> String, F: Fn(ArithOp, &Number, &Number) -> Option<Number>>(
        &self,
        params: &Vec<Value>,
        show: &S,
        float_op: &F,
    ) -> (r: Result<Value, String>)
        requires
            arith_accepts(ArithOp::Div, view_values(params@)),
            forall|v: &Value| show.requires((v,)),
            forall|a: &Number, b: &Number| float_op.requires((ArithOp::Div, a, b)),
        ensures
            arith_outcome(ArithOp::Div, params@, *show, *float_op, r),
    {
        arith(ArithOp::Div, params, show, float_op)
    }
}

} // verus!
